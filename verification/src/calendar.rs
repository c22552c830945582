//! Quarter-hours, the Belpex export's date and time cells, and the length
//! of a month.
use vstd::prelude::*;

use crate::error::{DateProblem, TariffError, TimeProblem};
use crate::sheet::{digit_char, nat_text};
use crate::text::{
    all_digits, chars_of, digit_value, digits_value, lemma_digits_value_nonneg, find_char, first_index_of, is_digit,
    is_white_space, lemma_first_index_of, lemma_unsigned_from_str_range, parse_unsigned,
    trim_bounds, trim_end, trim_start, trimmed, unsigned_from_str,
};

verus! {

/// The start of a quarter-hour, in local time.
#[derive(Clone, Copy, Debug, PartialEq, Eq, Hash, Structural)]
pub struct QuarterHour {
    pub year: u16,
    pub month: u8,
    pub day: u8,
    pub hour: u8,
    pub minute: u8,
}

pub open spec fn is_quarter_minute(m: int) -> bool {
    m == 0 || m == 15 || m == 30 || m == 45
}

/// How a Belpex time such as `23u45` reads: hour and minute around the
/// first `u` of the trimmed text, each an unsigned 8-bit number, the hour at
/// most 23 and the minute the start of a quarter-hour.
pub open spec fn belpex_time_outcome(value: Seq<char>) -> Result<(u8, u8), TimeProblem> {
    let t = trimmed(value);
    match first_index_of(t, 'u') {
        None => Err(TimeProblem::MissingSeparator),
        Some(i) => match unsigned_from_str(t.take(i), 255) {
            None => Err(TimeProblem::InvalidHour),
            Some(h) => match unsigned_from_str(t.skip(i + 1), 255) {
                None => Err(TimeProblem::InvalidMinute),
                Some(m) => if h > 23 || !is_quarter_minute(m) {
                    Err(TimeProblem::NotAQuarterHour)
                } else {
                    Ok((h as u8, m as u8))
                },
            },
        },
    }
}

/// How a Belpex date such as `01/04/2026` reads: nothing for an empty cell;
/// otherwise exactly three parts separated by `/`, day and month unsigned
/// 8-bit numbers and the year an unsigned 16-bit number.
pub open spec fn belpex_date_outcome(value: Seq<char>) -> Result<
    Option<(u8, u8, u16)>,
    DateProblem,
> {
    let t = trimmed(value);
    if t.len() == 0 {
        Ok(None)
    } else {
        match first_index_of(t, '/') {
            None => Err(DateProblem::WrongShape),
            Some(i) => {
                let rest = t.skip(i + 1);
                match first_index_of(rest, '/') {
                    None => Err(DateProblem::WrongShape),
                    Some(j) => {
                        let tail = rest.skip(j + 1);
                        if first_index_of(tail, '/') is Some {
                            Err(DateProblem::WrongShape)
                        } else {
                            match unsigned_from_str(t.take(i), 255) {
                                None => Err(DateProblem::InvalidDay),
                                Some(d) => match unsigned_from_str(rest.take(j), 255) {
                                    None => Err(DateProblem::InvalidMonth),
                                    Some(m) => match unsigned_from_str(tail, 65535) {
                                        None => Err(DateProblem::InvalidYear),
                                        Some(y) => Ok(Some((d as u8, m as u8, y as u16))),
                                    },
                                },
                            }
                        }
                    },
                }
            },
        }
    }
}

/// A time that reads is the start of a quarter-hour of the day.
pub proof fn lemma_belpex_time_valid(value: Seq<char>)
    ensures
        belpex_time_outcome(value) matches Ok(hm) ==> hm.0 <= 23 && is_quarter_minute(hm.1 as int),
{
    let t = trimmed(value);
    match first_index_of(t, 'u') {
        Some(i) => {
            lemma_unsigned_from_str_range(t.take(i), 255);
            lemma_unsigned_from_str_range(t.skip(i + 1), 255);
        },
        None => {},
    }
}

/// Reads a Belpex time cell such as `23u45` into hour and minute.
pub fn parse_belpex_time(value: &str) -> (r: Result<(u8, u8), TariffError>)
    ensures
        match belpex_time_outcome(value@) {
            Ok(hm) => r == Ok::<(u8, u8), TariffError>(hm),
            Err(p) => r matches Err(TariffError::InvalidBelpexTime { value: v, time_problem })
                && v@ == value@ && time_problem == p,
        },
        r matches Ok((h, m)) ==> h <= 23 && is_quarter_minute(m as int),
{
    let chars = chars_of(value);
    let (lo, hi) = trim_bounds(&chars);
    let ghost t = chars@.subrange(lo as int, hi as int);
    let problem = match find_char(&chars, lo, hi, 'u') {
        None => TimeProblem::MissingSeparator,
        Some(sep) => {
            proof {
                lemma_first_index_of(t, 'u');
                assert(t.take(sep - lo) =~= chars@.subrange(lo as int, sep as int));
                assert(t.skip(sep - lo + 1) =~= chars@.subrange(sep + 1, hi as int));
            }
            match parse_unsigned(&chars, lo, sep, 255) {
                None => TimeProblem::InvalidHour,
                Some(hour) => match parse_unsigned(&chars, sep + 1, hi, 255) {
                    None => TimeProblem::InvalidMinute,
                    Some(minute) => {
                        if hour > 23 || !(minute == 0 || minute == 15 || minute == 30 || minute
                            == 45) {
                            TimeProblem::NotAQuarterHour
                        } else {
                            return Ok((hour as u8, minute as u8));
                        }
                    },
                },
            }
        },
    };
    Err(TariffError::InvalidBelpexTime { value: value.to_owned(), time_problem: problem })
}

/// Two decimal digits, as `{:02}` writes a number below 100.
pub open spec fn two_digits(n: nat) -> Seq<char> {
    seq![digit_char((n / 10) as int), digit_char((n % 10) as int)]
}

/// A decimal digit is a digit, neither white space nor `u` nor `+`.
proof fn lemma_digit_char(d: int)
    requires
        0 <= d < 10,
    ensures
        is_digit(digit_char(d)),
        digit_value(digit_char(d)) == d,
        !is_white_space(digit_char(d)),
        digit_char(d) != 'u',
        digit_char(d) != '+',
{
}

/// The number that one or two digits write.
proof fn lemma_short_digits(a: Seq<char>)
    requires
        1 <= a.len() <= 2,
        all_digits(a),
    ensures
        a.len() == 1 ==> digits_value(a) == digit_value(a[0]),
        a.len() == 2 ==> digits_value(a) == 10 * digit_value(a[0]) + digit_value(a[1]),
{
    let d = a.drop_last();
    if a.len() == 2 {
        assert(d.drop_last() =~= Seq::<char>::empty());
        assert(digits_value(d.drop_last()) == 0);
        assert(d.last() == a[0]);
        assert(digits_value(d) == digit_value(a[0]));
        assert(a.last() == a[1]);
        assert(digits_value(a) == 10 * digits_value(d) + digit_value(a.last()));
    } else {
        assert(d =~= Seq::<char>::empty());
        assert(digits_value(d) == 0);
        assert(a.last() == a[0]);
        assert(digits_value(a) == 10 * digits_value(d) + digit_value(a.last()));
    }
}

/// `n` below 100 written in decimal: one digit below 10, two from 10.
proof fn lemma_small_nat_text(n: nat)
    requires
        n < 100,
    ensures
        n < 10 ==> nat_text(n) == seq![digit_char(n as int)],
        n >= 10 ==> nat_text(n) == two_digits(n),
{
    if n >= 10 {
        assert(nat_text(n / 10) == seq![digit_char((n / 10) as int)]);
        assert(nat_text(n) =~= two_digits(n));
    }
}

/// Text without white space at either end is its own trimmed text, also
/// between two spaces.
proof fn lemma_trim_spaced(c: Seq<char>)
    requires
        c.len() > 0,
        !is_white_space(c[0]),
        !is_white_space(c.last()),
    ensures
        trimmed(c) == c,
        trimmed(seq![' '] + c + seq![' ']) == c,
{
    let p = seq![' '] + c + seq![' '];
    assert(is_white_space(' '));
    assert(p.drop_first() =~= c + seq![' ']);
    assert((c + seq![' ']).drop_last() =~= c);
    assert(trim_start(p) == trim_start(c + seq![' ']));
    assert((c + seq![' '])[0] == c[0]);
    assert(trim_start(c + seq![' ']) == c + seq![' ']);
    assert(trim_end(c + seq![' ']) == trim_end(c));
}

/// Hour digits, `u` and minute digits read as that hour and minute.
proof fn lemma_digits_time_reads(a: Seq<char>, b: Seq<char>, h: u8, m: u8)
    requires
        1 <= a.len() <= 2,
        1 <= b.len() <= 2,
        all_digits(a),
        all_digits(b),
        forall|i: int| 0 <= i < a.len() ==> a[i] != 'u',
        digits_value(a) == h,
        digits_value(b) == m,
        h <= 23,
        is_quarter_minute(m as int),
    ensures
        belpex_time_outcome(a + seq!['u'] + b) == Ok::<(u8, u8), TimeProblem>((h, m)),
        belpex_time_outcome(seq![' '] + (a + seq!['u'] + b) + seq![' ']) == Ok::<
            (u8, u8),
            TimeProblem,
        >((h, m)),
{
    let t = a + seq!['u'] + b;
    assert(!is_white_space(t[0])) by {
        assert(t[0] == a[0]);
        assert(is_digit(a[0]));
    }
    assert(!is_white_space(t.last())) by {
        assert(t.last() == b[b.len() - 1]);
        assert(is_digit(b[b.len() - 1]));
    }
    lemma_trim_spaced(t);
    lemma_first_index_of(t, 'u');
    assert(t[a.len() as int] == 'u');
    assert(first_index_of(t, 'u') == Some(a.len() as int)) by {
        match first_index_of(t, 'u') {
            Some(i) => {
                if i < a.len() {
                    assert(t[i] == a[i]);
                }
            },
            None => {},
        }
    }
    assert(t.take(a.len() as int) =~= a);
    assert(t.skip(a.len() as int + 1) =~= b);
    assert(a[0] != '+') by {
        assert(is_digit(a[0]));
    }
    assert(b[0] != '+') by {
        assert(is_digit(b[0]));
    }
    assert(unsigned_from_str(a, 255) == Some(h as int));
    assert(unsigned_from_str(b, 255) == Some(m as int));
}

/// A Belpex time written as hour, `u` and the minute in two digits, such as
/// `12u15` or `7u00`, reads back as that hour and minute; so does one with
/// the hour in two digits between spaces, such as ` 07u00 `.
pub proof fn law_written_time_reads_back(h: u8, m: u8)
    requires
        h <= 23,
        is_quarter_minute(m as int),
    ensures
        belpex_time_outcome(nat_text(h as nat) + seq!['u'] + two_digits(m as nat)) == Ok::<
            (u8, u8),
            TimeProblem,
        >((h, m)),
        belpex_time_outcome(
            seq![' '] + two_digits(h as nat) + seq!['u'] + two_digits(m as nat) + seq![' '],
        ) == Ok::<(u8, u8), TimeProblem>((h, m)),
{
    let hn = h as int;
    let mn = m as int;
    lemma_digit_char(hn / 10);
    lemma_digit_char(hn % 10);
    lemma_digit_char(mn / 10);
    lemma_digit_char(mn % 10);
    let hh = two_digits(h as nat);
    let mm = two_digits(m as nat);
    lemma_short_digits(hh);
    lemma_short_digits(mm);
    assert(digits_value(hh) == h);
    assert(digits_value(mm) == m);
    lemma_digits_time_reads(hh, mm, h, m);
    assert(seq![' '] + hh + seq!['u'] + mm + seq![' '] =~= seq![' '] + (hh + seq!['u'] + mm)
        + seq![' ']);
    lemma_small_nat_text(h as nat);
    if h < 10 {
        let one = seq![digit_char(hn)];
        assert(hn / 10 == 0 && hn % 10 == hn);
        lemma_short_digits(one);
        lemma_digits_time_reads(one, mm, h, m);
    } else {
        lemma_digits_time_reads(hh, mm, h, m);
    }
}

/// `n` written in decimal is one or more digits that read as `n`.
proof fn lemma_nat_text_digits(n: nat)
    ensures
        nat_text(n).len() > 0,
        all_digits(nat_text(n)),
        digits_value(nat_text(n)) == n,
    decreases n,
{
    lemma_digit_char((n % 10) as int);
    if n >= 10 {
        lemma_nat_text_digits(n / 10);
        let s = nat_text(n);
        let p = nat_text(n / 10);
        assert(s == p.push(digit_char((n % 10) as int)));
        assert(s.drop_last() =~= p);
        assert forall|i: int| 0 <= i < s.len() implies is_digit(#[trigger] s[i]) by {
            if i < p.len() {
                assert(s[i] == p[i]);
            }
        }
    } else {
        let s = nat_text(n);
        assert(s.drop_last() =~= Seq::<char>::empty());
        assert(digits_value(s.drop_last()) == 0);
    }
}

/// Day digits, `/`, month digits, `/` and year digits read as that day,
/// month and year.
proof fn lemma_digits_date_reads(a: Seq<char>, b: Seq<char>, c: Seq<char>, d: u8, m: u8, y: u16)
    requires
        a.len() > 0,
        b.len() > 0,
        c.len() > 0,
        all_digits(a),
        all_digits(b),
        all_digits(c),
        digits_value(a) == d,
        digits_value(b) == m,
        digits_value(c) == y,
    ensures
        belpex_date_outcome(a + seq!['/'] + b + seq!['/'] + c) == Ok::<
            Option<(u8, u8, u16)>,
            DateProblem,
        >(Some((d, m, y))),
{
    let t = a + seq!['/'] + b + seq!['/'] + c;
    assert(t[0] == a[0] && is_digit(a[0]));
    assert(t.last() == c[c.len() - 1] && is_digit(c[c.len() - 1]));
    lemma_trim_spaced(t);
    lemma_first_index_of(t, '/');
    assert(t[a.len() as int] == '/');
    assert(first_index_of(t, '/') == Some(a.len() as int)) by {
        match first_index_of(t, '/') {
            Some(i) => {
                if i < a.len() {
                    assert(t[i] == a[i] && is_digit(a[i]));
                }
            },
            None => {},
        }
    }
    let rest = t.skip(a.len() as int + 1);
    assert(rest =~= b + seq!['/'] + c);
    lemma_first_index_of(rest, '/');
    assert(rest[b.len() as int] == '/');
    assert(first_index_of(rest, '/') == Some(b.len() as int)) by {
        match first_index_of(rest, '/') {
            Some(i) => {
                if i < b.len() {
                    assert(rest[i] == b[i] && is_digit(b[i]));
                }
            },
            None => {},
        }
    }
    let tail = rest.skip(b.len() as int + 1);
    assert(tail =~= c);
    lemma_first_index_of(c, '/');
    assert(first_index_of(c, '/') is None) by {
        match first_index_of(c, '/') {
            Some(i) => {
                assert(is_digit(c[i]));
            },
            None => {},
        }
    }
    assert(t.take(a.len() as int) =~= a);
    assert(rest.take(b.len() as int) =~= b);
    assert(is_digit(a[0]) && is_digit(b[0]) && is_digit(c[0]));
    lemma_digits_value_nonneg(a);
    assert(unsigned_from_str(a, 255) == Some(d as int));
    assert(unsigned_from_str(b, 255) == Some(m as int));
    assert(unsigned_from_str(c, 65535) == Some(y as int));
}

/// A Belpex date written as day, `/`, month, `/` and year in decimal, such
/// as `1/5/2026`, reads back as that day, month and year; so does one with
/// day and month in two digits, such as `01/05/2026`.
pub proof fn law_written_date_reads_back(d: u8, m: u8, y: u16)
    ensures
        belpex_date_outcome(
            nat_text(d as nat) + seq!['/'] + nat_text(m as nat) + seq!['/'] + nat_text(y as nat),
        ) == Ok::<Option<(u8, u8, u16)>, DateProblem>(Some((d, m, y))),
        d < 100 && m < 100 ==> belpex_date_outcome(
            two_digits(d as nat) + seq!['/'] + two_digits(m as nat) + seq!['/'] + nat_text(
                y as nat,
            ),
        ) == Ok::<Option<(u8, u8, u16)>, DateProblem>(Some((d, m, y))),
{
    lemma_nat_text_digits(d as nat);
    lemma_nat_text_digits(m as nat);
    lemma_nat_text_digits(y as nat);
    lemma_digits_date_reads(nat_text(d as nat), nat_text(m as nat), nat_text(y as nat), d, m, y);
    if d < 100 && m < 100 {
        let dd = two_digits(d as nat);
        let mm = two_digits(m as nat);
        lemma_digit_char(d as int / 10);
        lemma_digit_char(d as int % 10);
        lemma_digit_char(m as int / 10);
        lemma_digit_char(m as int % 10);
        lemma_short_digits(dd);
        lemma_short_digits(mm);
        lemma_digits_date_reads(dd, mm, nat_text(y as nat), d, m, y);
    }
}

/// Reads a Belpex date cell such as `01/04/2026` into day, month and year;
/// an empty cell gives nothing.
pub fn parse_belpex_date(value: &str) -> (r: Result<Option<(u8, u8, u16)>, TariffError>)
    ensures
        match belpex_date_outcome(value@) {
            Ok(d) => r == Ok::<Option<(u8, u8, u16)>, TariffError>(d),
            Err(p) => r matches Err(TariffError::InvalidBelpexDate { value: v, date_problem })
                && v@ == value@ && date_problem == p,
        },
{
    let chars = chars_of(value);
    let (lo, hi) = trim_bounds(&chars);
    let ghost t = chars@.subrange(lo as int, hi as int);
    if lo == hi {
        return Ok(None);
    }
    let problem = match find_char(&chars, lo, hi, '/') {
        None => DateProblem::WrongShape,
        Some(first) => {
            let ghost rest = t.skip(first - lo + 1);
            proof {
                lemma_first_index_of(t, '/');
                assert(rest =~= chars@.subrange(first + 1, hi as int));
                assert(t.take(first - lo) =~= chars@.subrange(lo as int, first as int));
            }
            match find_char(&chars, first + 1, hi, '/') {
                None => DateProblem::WrongShape,
                Some(second) => {
                    let ghost tail = rest.skip(second - first);
                    proof {
                        lemma_first_index_of(rest, '/');
                        assert(tail =~= chars@.subrange(second + 1, hi as int));
                        assert(rest.take(second - first - 1) =~= chars@.subrange(
                            first + 1,
                            second as int,
                        ));
                    }
                    match find_char(&chars, second + 1, hi, '/') {
                        Some(_) => DateProblem::WrongShape,
                        None => match parse_unsigned(&chars, lo, first, 255) {
                            None => DateProblem::InvalidDay,
                            Some(day) => match parse_unsigned(&chars, first + 1, second, 255) {
                                None => DateProblem::InvalidMonth,
                                Some(month) => match parse_unsigned(
                                    &chars,
                                    second + 1,
                                    hi,
                                    65535,
                                ) {
                                    None => DateProblem::InvalidYear,
                                    Some(year) => {
                                        return Ok(Some((day as u8, month as u8, year as u16)));
                                    },
                                },
                            },
                        },
                    }
                },
            }
        },
    };
    Err(TariffError::InvalidBelpexDate { value: value.to_owned(), date_problem: problem })
}

/// Gregorian leap years: every fourth year, except centuries not divisible
/// by 400.
pub open spec fn leap_year(year: int) -> bool {
    (year % 4 == 0 && year % 100 != 0) || year % 400 == 0
}

/// The number of days of a month, if the month exists.
pub open spec fn month_length(year: int, month: int) -> Option<int> {
    if month == 1 || month == 3 || month == 5 || month == 7 || month == 8 || month == 10 || month
        == 12 {
        Some(31)
    } else if month == 4 || month == 6 || month == 9 || month == 11 {
        Some(30)
    } else if month == 2 {
        if leap_year(year) {
            Some(29)
        } else {
            Some(28)
        }
    } else {
        None
    }
}

pub fn is_leap_year(year: u16) -> (r: bool)
    ensures
        r == leap_year(year as int),
{
    let year = year as u32;
    year % 4 == 0 && year % 100 != 0 || year % 400 == 0
}

pub fn days_in_month(year: u16, month: u8) -> (r: Option<u8>)
    ensures
        r is Some <==> month_length(year as int, month as int) is Some,
        r is Some ==> r->0 == month_length(year as int, month as int)->0,
{
    match month {
        1 | 3 | 5 | 7 | 8 | 10 | 12 => Some(31),
        4 | 6 | 9 | 11 => Some(30),
        2 => {
            if is_leap_year(year) {
                Some(29)
            } else {
                Some(28)
            }
        },
        _ => None,
    }
}

/// The month of a calculation must exist.
pub fn check_month(month: u8) -> (r: Result<(), TariffError>)
    ensures
        r is Ok <==> 1 <= month <= 12,
        r matches Err(e) ==> e == TariffError::InvalidMonth(month),
{
    if 1 <= month && month <= 12 {
        Ok(())
    } else {
        Err(TariffError::InvalidMonth(month))
    }
}

/// Month lengths of the Gregorian calendar: January, March, May, July,
/// August, October and December have 31 days; April, June, September and
/// November 30; February 29 in a leap year and 28 otherwise; so a year has
/// 365 days, 366 in a leap year. No other month exists.
pub proof fn law_month_lengths(year: int, month: int)
    ensures
        month_length(year, 1) == Some(31int),
        month_length(year, 2) == Some(if leap_year(year) { 29int } else { 28int }),
        month_length(year, 3) == Some(31int),
        month_length(year, 4) == Some(30int),
        month_length(year, 5) == Some(31int),
        month_length(year, 6) == Some(30int),
        month_length(year, 7) == Some(31int),
        month_length(year, 8) == Some(31int),
        month_length(year, 9) == Some(30int),
        month_length(year, 10) == Some(31int),
        month_length(year, 11) == Some(30int),
        month_length(year, 12) == Some(31int),
        month_length(year, 1)->0 + month_length(year, 2)->0 + month_length(year, 3)->0
            + month_length(year, 4)->0 + month_length(year, 5)->0 + month_length(year, 6)->0
            + month_length(year, 7)->0 + month_length(year, 8)->0 + month_length(year, 9)->0
            + month_length(year, 10)->0 + month_length(year, 11)->0 + month_length(year, 12)->0
            == if leap_year(year) { 366int } else { 365int },
        (month < 1 || month > 12) ==> month_length(year, month) is None,
{
}

} // verus!
