//! Reading weekdays, months and date tokens such as `16Mar2009(mon)`.
use vstd::prelude::*;
use crate::error::{viewed, DateFault, ParseError};
use crate::model::{Date, Weekday};
use crate::text::{digit_at, digit_value, is_digit, same_text};

verus! {

/// The weekday that an abbreviation names, if any.
pub open spec fn weekday_named(s: Seq<char>) -> Option<Weekday> {
    if s == "mon"@ {
        Some(Weekday::Monday)
    } else if s == "tues"@ {
        Some(Weekday::Tuesday)
    } else if s == "wed"@ {
        Some(Weekday::Wednesday)
    } else if s == "thur"@ {
        Some(Weekday::Thursday)
    } else if s == "fri"@ {
        Some(Weekday::Friday)
    } else if s == "sat"@ {
        Some(Weekday::Saturday)
    } else if s == "sun"@ {
        Some(Weekday::Sunday)
    } else {
        None
    }
}

/// The number (1 to 12) of the month that a three letter name gives, if any.
pub open spec fn month_named(s: Seq<char>) -> Option<u8> {
    if s == "Jan"@ {
        Some(1)
    } else if s == "Feb"@ {
        Some(2)
    } else if s == "Mar"@ {
        Some(3)
    } else if s == "Apr"@ {
        Some(4)
    } else if s == "May"@ {
        Some(5)
    } else if s == "Jun"@ {
        Some(6)
    } else if s == "Jul"@ {
        Some(7)
    } else if s == "Aug"@ {
        Some(8)
    } else if s == "Sep"@ {
        Some(9)
    } else if s == "Oct"@ {
        Some(10)
    } else if s == "Nov"@ {
        Some(11)
    } else if s == "Dec"@ {
        Some(12)
    } else {
        None
    }
}

/// Reading a weekday abbreviation: the weekday, or the abbreviation at fault.
pub open spec fn weekday_parse(s: Seq<char>) -> Result<Weekday, DateFault<Seq<char>>> {
    match weekday_named(s) {
        Some(w) => Ok(w),
        None => Err(DateFault::InvalidWeekday(s)),
    }
}

/// Reading a month name: its number, or the name at fault.
pub open spec fn month_parse(s: Seq<char>) -> Result<u8, DateFault<Seq<char>>> {
    match month_named(s) {
        Some(m) => Ok(m),
        None => Err(DateFault::UnknownMonth(s)),
    }
}

/// Whether the characters of `t` from `lo` up to `hi` are all digits.
pub open spec fn all_digits(t: Seq<char>, lo: int, hi: int) -> bool {
    forall|k: int| lo <= k < hi ==> is_digit(#[trigger] t[k])
}

/// The position of the first `)` of `t` at or after `from`, if any.
pub open spec fn closing_from(t: Seq<char>, from: int) -> Option<int>
    decreases t.len() - from,
{
    if from < 0 || from >= t.len() {
        None
    } else if t[from] == ')' {
        Some(from)
    } else {
        closing_from(t, from + 1)
    }
}

/// The shortest date token: day, month, year, `(`, one letter and `)`.
pub const MIN_DATE_LEN: usize = 12;

/// Where the `(` before the weekday stands, after day, month and year.
pub const OPEN_BRACKET: usize = 9;

/// Where the weekday starts, after day, month, year and `(`.
pub const WEEKDAY_START: usize = 10;

/// Reading a date token `DDMonYYYY(weekday)`: the first part that is at fault,
/// checked in the order day, month, year, weekday. The weekday is the text
/// between the `(` position and the first `)` from there on; a `)` in the
/// `(` position leaves no weekday. The character in the `(` position is not
/// otherwise looked at, nor is anything after the `)`.
pub open spec fn date_fault_or(t: Seq<char>) -> Result<Date, DateFault<Seq<char>>> {
    if t.len() < MIN_DATE_LEN {
        Err(DateFault::TooShort)
    } else if !all_digits(t, 0, 2) {
        Err(DateFault::InvalidDay(t.subrange(0, 2)))
    } else if month_named(t.subrange(2, 5)) is None {
        Err(DateFault::UnknownMonth(t.subrange(2, 5)))
    } else if !all_digits(t, 5, 9) {
        Err(DateFault::InvalidYear(t.subrange(5, 9)))
    } else {
        match closing_from(t, OPEN_BRACKET as int) {
            None => Err(DateFault::MissingClosingBracket),
            Some(j) => if j < WEEKDAY_START {
                Err(DateFault::InvalidWeekday(Seq::empty()))
            } else {
                match weekday_named(t.subrange(WEEKDAY_START as int, j)) {
                    None => Err(DateFault::InvalidWeekday(t.subrange(WEEKDAY_START as int, j))),
                    Some(w) => Ok(
                        Date {
                            day: (10 * digit_value(t[0]) + digit_value(t[1])) as u8,
                            month: month_named(t.subrange(2, 5))->0,
                            year: (1000 * digit_value(t[5]) + 100 * digit_value(t[6]) + 10
                                * digit_value(t[7]) + digit_value(t[8])) as u16,
                            weekday: w,
                        },
                    ),
                }
            },
        }
    }
}

/// Reading a date token, with a fault wrapped together with the whole token.
pub open spec fn date_parse(t: Seq<char>) -> Result<Date, ParseError<Seq<char>>> {
    match date_fault_or(t) {
        Ok(d) => Ok(d),
        Err(f) => Err(ParseError::InvalidDate(t, f)),
    }
}

/// The first `)` from `from` on is at `j` when none stands before it.
proof fn lemma_closing_at(t: Seq<char>, from: int, j: int)
    requires
        0 <= from <= j < t.len(),
        t[j] == ')',
        forall|k: int| from <= k < j ==> t[k] != ')',
    ensures
        closing_from(t, from) == Some(j),
    decreases j - from,
{
    if from < j {
        lemma_closing_at(t, from + 1, j);
    }
}

/// A token made of a day, a month name, a year, `(`, a weekday abbreviation
/// and `)` reads as a date with that weekday, and with that day, month and
/// year.
pub proof fn lemma_weekday_kept(day: Seq<char>, month: Seq<char>, year: Seq<char>, wd: Seq<char>)
    requires
        day.len() == 2,
        all_digits(day, 0, 2),
        month_named(month) is Some,
        year.len() == 4,
        all_digits(year, 0, 4),
        weekday_named(wd) is Some,
    ensures
        date_parse(day + month + year + seq!['('] + wd + seq![')']) matches Ok(d) && d.weekday
            == weekday_named(wd)->0 && d.month == month_named(month)->0 && d.day as nat == 10
            * digit_value(day[0]) + digit_value(day[1]) && d.year as nat == 1000 * digit_value(
            year[0],
        ) + 100 * digit_value(year[1]) + 10 * digit_value(year[2]) + digit_value(year[3]),
{
    reveal_strlit("Jan");
    reveal_strlit("Feb");
    reveal_strlit("Mar");
    reveal_strlit("Apr");
    reveal_strlit("May");
    reveal_strlit("Jun");
    reveal_strlit("Jul");
    reveal_strlit("Aug");
    reveal_strlit("Sep");
    reveal_strlit("Oct");
    reveal_strlit("Nov");
    reveal_strlit("Dec");
    reveal_strlit("mon");
    reveal_strlit("tues");
    reveal_strlit("wed");
    reveal_strlit("thur");
    reveal_strlit("fri");
    reveal_strlit("sat");
    reveal_strlit("sun");
    assert(month.len() == 3);
    assert(3 <= wd.len() <= 4);
    assert(forall|k: int| 0 <= k < wd.len() ==> wd[k] != ')');
    let t = day + month + year + seq!['('] + wd + seq![')'];
    let j: int = WEEKDAY_START + wd.len() as int;
    assert(t.len() == j + 1);
    assert(t.subrange(0, 2) =~= day);
    assert(t.subrange(2, 5) =~= month);
    assert(t.subrange(WEEKDAY_START as int, j) =~= wd);
    assert(forall|k: int| 5 <= k < 9 ==> t[k] == year[k - 5]);
    assert(forall|k: int| WEEKDAY_START <= k < j ==> t[k] == wd[k - WEEKDAY_START]);
    assert(t[j] == ')');
    assert(t[OPEN_BRACKET as int] == '(');
    lemma_closing_at(t, OPEN_BRACKET as int, j);
}

impl Weekday {
    /// Reads a lowercase weekday abbreviation: `mon`, `tues`, `wed`, `thur`,
    /// `fri`, `sat` or `sun`.
    pub fn from_str(s: &str) -> (r: Result<Weekday, DateFault<String>>)
        ensures
            viewed(r) == weekday_parse(s@),
    {
        if same_text(s, "mon") {
            Ok(Weekday::Monday)
        } else if same_text(s, "tues") {
            Ok(Weekday::Tuesday)
        } else if same_text(s, "wed") {
            Ok(Weekday::Wednesday)
        } else if same_text(s, "thur") {
            Ok(Weekday::Thursday)
        } else if same_text(s, "fri") {
            Ok(Weekday::Friday)
        } else if same_text(s, "sat") {
            Ok(Weekday::Saturday)
        } else if same_text(s, "sun") {
            Ok(Weekday::Sunday)
        } else {
            Err(DateFault::InvalidWeekday(s.to_owned()))
        }
    }
}

/// Reads a three letter month name, `Jan` to `Dec`, as its number.
pub fn month_from(s: &str) -> (r: Result<u8, DateFault<String>>)
    ensures
        viewed(r) == month_parse(s@),
{
    if same_text(s, "Jan") {
        Ok(1)
    } else if same_text(s, "Feb") {
        Ok(2)
    } else if same_text(s, "Mar") {
        Ok(3)
    } else if same_text(s, "Apr") {
        Ok(4)
    } else if same_text(s, "May") {
        Ok(5)
    } else if same_text(s, "Jun") {
        Ok(6)
    } else if same_text(s, "Jul") {
        Ok(7)
    } else if same_text(s, "Aug") {
        Ok(8)
    } else if same_text(s, "Sep") {
        Ok(9)
    } else if same_text(s, "Oct") {
        Ok(10)
    } else if same_text(s, "Nov") {
        Ok(11)
    } else if same_text(s, "Dec") {
        Ok(12)
    } else {
        Err(DateFault::UnknownMonth(s.to_owned()))
    }
}

/// The date a well-formed token gives, or what is wrong with it.
fn read_date(s: &str) -> (r: Result<Date, DateFault<String>>)
    ensures
        viewed(r) == date_fault_or(s@),
{
    let n = s.unicode_len();
    if n < MIN_DATE_LEN {
        return Err(DateFault::TooShort);
    }
    let (d0, d1) = match (digit_at(s, 0), digit_at(s, 1)) {
        (Some(a), Some(b)) => (a, b),
        _ => {
            return Err(DateFault::InvalidDay(s.substring_char(0, 2).to_owned()));
        },
    };
    let month = month_from(s.substring_char(2, 5));
    let month = match month {
        Ok(m) => m,
        Err(e) => {
            return Err(e);
        },
    };
    let (y0, y1, y2, y3) = match (digit_at(s, 5), digit_at(s, 6), digit_at(s, 7), digit_at(s, 8)) {
        (Some(a), Some(b), Some(c), Some(d)) => (a, b, c, d),
        _ => {
            return Err(DateFault::InvalidYear(s.substring_char(5, 9).to_owned()));
        },
    };
    let mut j: usize = OPEN_BRACKET;
    while j < n && s.get_char(j) != ')'
        invariant
            OPEN_BRACKET <= j <= n,
            n == s@.len(),
            closing_from(s@, OPEN_BRACKET as int) == closing_from(s@, j as int),
        decreases n - j,
    {
        j = j + 1;
    }
    if j == n {
        return Err(DateFault::MissingClosingBracket);
    }
    if j < WEEKDAY_START {
        return Err(DateFault::InvalidWeekday(String::new()));
    }
    let weekday = match Weekday::from_str(s.substring_char(WEEKDAY_START, j)) {
        Ok(w) => w,
        Err(e) => {
            return Err(e);
        },
    };
    Ok(Date { day: d0 * 10 + d1, month, year: y0 as u16 * 1000 + y1 as u16 * 100 + y2 as u16 * 10 + y3 as u16, weekday })
}

impl Date {
    /// Reads a date token of the form `DDMonYYYY(weekday)`, such as
    /// `16Mar2009(mon)`. Day and year must be digits and the month one of the
    /// twelve names; whether the day exists in that month is not checked.
    pub fn from_str(s: &str) -> (r: Result<Date, ParseError<String>>)
        ensures
            viewed(r) == date_parse(s@),
    {
        match read_date(s) {
            Ok(d) => Ok(d),
            Err(f) => Err(ParseError::InvalidDate(s.to_owned(), f)),
        }
    }
}

} // verus!
