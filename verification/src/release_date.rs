//! Release dates of a year, a month or a day.

use vstd::prelude::*;
use vstd::string::*;
use vstd::utf8::*;

use crate::text::{
    concat4, is_ascii_digit, is_digits, joined, lemma_decimal, lemma_digits_are_padded,
    lemma_padded, lemma_pieces_first, lemma_pieces_rejoin, lemma_pieces_single, number, opt_view,
    padded, padded_text, parse_unsigned, pieces, split_text, texts, unsigned,
};

verus! {

// ---------------------------------------------------------------------------
// The calendar
// ---------------------------------------------------------------------------

/// Whether a year of the Gregorian calendar has a leap day.
pub open spec fn is_leap(year: int) -> bool {
    year % 4 == 0 && (year % 100 != 0 || year % 400 == 0)
}

/// How many days a month has; no month outside 1 to 12 has any.
pub open spec fn days_in(year: int, month: int) -> int {
    if month == 2 {
        if is_leap(year) {
            29
        } else {
            28
        }
    } else if month == 4 || month == 6 || month == 9 || month == 11 {
        30
    } else if 1 <= month <= 12 {
        31
    } else {
        0
    }
}

/// Whether a day exists in the proleptic Gregorian calendar.
pub open spec fn is_day(year: int, month: int, day: int) -> bool {
    1 <= month <= 12 && 1 <= day <= days_in(year, month)
}

/// `chrono::NaiveDate::from_ymd_opt` gives a date exactly for the days of the
/// proleptic Gregorian calendar; the years here are well inside its range.
#[verifier::external_body]
fn day_exists(year: u16, month: u8, day: u8) -> (r: bool)
    ensures
        r == is_day(year as int, month as int, day as int),
{
    chrono::NaiveDate::from_ymd_opt(i32::from(year), u32::from(month), u32::from(day)).is_some()
}

// ---------------------------------------------------------------------------
// Release dates
// ---------------------------------------------------------------------------

/// A release date as plain values: a year, and a month and a day as far as
/// they are known.
pub struct DateModel {
    pub year: int,
    pub month: Option<int>,
    pub day: Option<int>,
}

/// What is wrong with the parts of a date, if anything.
pub open spec fn date_fault(date: DateModel) -> Option<Seq<char>> {
    if date.year > 9999 {
        Some("year must use at most four digits"@)
    } else {
        match (date.month, date.day) {
            (None, None) => None,
            (None, Some(_)) => Some("day requires a month"@),
            (Some(month), None) => if 1 <= month <= 12 {
                None
            } else {
                Some("month must be between 01 and 12"@)
            },
            (Some(month), Some(day)) => if is_day(date.year, month, day) {
                None
            } else {
                Some("date is not valid"@)
            },
        }
    }
}

/// The written form of a date, a missing month before a day as `??`.
pub open spec fn date_text(date: DateModel) -> Seq<char> {
    let year = padded(date.year as nat, 4);
    match (date.month, date.day) {
        (None, None) => year,
        (Some(month), None) => year + "-"@ + padded(month as nat, 2),
        (Some(month), Some(day)) => year + "-"@ + padded(month as nat, 2) + "-"@ + padded(
            day as nat,
            2,
        ),
        (None, Some(day)) => year + "-??-"@ + padded(day as nat, 2),
    }
}

/// How many bytes a text takes.
pub open spec fn byte_len(s: Seq<char>) -> nat {
    encode_utf8(s).len()
}

/// Whether the pieces of a written date have the widths of a year, a month
/// and a day.
pub open spec fn date_widths(parts: Seq<Seq<char>>) -> bool {
    &&& 1 <= parts.len() <= 3
    &&& byte_len(parts[0]) == 4
    &&& parts.len() >= 2 ==> byte_len(parts[1]) == 2
    &&& parts.len() == 3 ==> byte_len(parts[2]) == 2
}

/// The date that a text stands for, or why it stands for none.
pub open spec fn parsed_date(s: Seq<char>) -> Result<DateModel, Seq<char>> {
    let parts = pieces(s, '-');
    if !date_widths(parts) {
        Err("expected YYYY, YYYY-MM, or YYYY-MM-DD"@)
    } else if unsigned(parts[0]) is None || (parts.len() >= 2 && unsigned(parts[1]) is None) || (
    parts.len() == 3 && unsigned(parts[2]) is None) {
        Err("date components must be decimal numbers"@)
    } else {
        let date = DateModel {
            year: unsigned(parts[0])->0 as int,
            month: if parts.len() >= 2 {
                Some(unsigned(parts[1])->0 as int)
            } else {
                None
            },
            day: if parts.len() == 3 {
                Some(unsigned(parts[2])->0 as int)
            } else {
                None
            },
        };
        match date_fault(date) {
            Some(reason) => Err(reason),
            None => Ok(date),
        }
    }
}

/// A release date.
#[derive(Clone, Copy, Debug, PartialEq, Eq, Hash, PartialOrd, Ord, Structural)]
pub struct ReleaseDate {
    year: u16,
    month: Option<u8>,
    day: Option<u8>,
}

pub open spec fn opt_int(o: Option<u8>) -> Option<int> {
    match o {
        Some(n) => Some(n as int),
        None => None,
    }
}

impl View for ReleaseDate {
    type V = DateModel;

    closed spec fn view(&self) -> DateModel {
        DateModel { year: self.year as int, month: opt_int(self.month), day: opt_int(self.day) }
    }
}

/// A text or parts that are no release date.
#[derive(Clone, Debug, PartialEq, Eq)]
pub struct ReleaseDateParseError {
    pub value: String,
    pub reason: &'static str,
}

impl ReleaseDateParseError {
    pub fn message(&self) -> (r: String)
        ensures
            r@ == "invalid release date `"@ + self.value@ + "`: "@ + self.reason@,
    {
        concat4("invalid release date `", self.value.as_str(), "`: ", self.reason)
    }
}

fn validate_release_date(year: u16, month: Option<u8>, day: Option<u8>) -> (r: Result<
    (),
    &'static str,
>)
    ensures
        match r {
            Ok(_) => date_fault(
                DateModel { year: year as int, month: opt_int(month), day: opt_int(day) },
            ) is None,
            Err(reason) => date_fault(
                DateModel { year: year as int, month: opt_int(month), day: opt_int(day) },
            ) == Some(reason@),
        },
{
    if year > 9999 {
        return Err("year must use at most four digits");
    }
    match (month, day) {
        (None, None) => Ok(()),
        (None, Some(_)) => Err("day requires a month"),
        (Some(month), None) => {
            if 1 <= month && month <= 12 {
                Ok(())
            } else {
                Err("month must be between 01 and 12")
            }
        },
        (Some(month), Some(day)) => {
            if day_exists(year, month, day) {
                Ok(())
            } else {
                Err("date is not valid")
            }
        },
    }
}

fn date_text_of(year: u16, month: Option<u8>, day: Option<u8>) -> (r: String)
    ensures
        r@ == date_text(DateModel { year: year as int, month: opt_int(month), day: opt_int(day) }),
{
    let mut out = padded_text(year as u64, 4);
    match (month, day) {
        (None, None) => {},
        (Some(month), None) => {
            out.append("-");
            let m = padded_text(month as u64, 2);
            out.append(m.as_str());
        },
        (Some(month), Some(day)) => {
            out.append("-");
            let m = padded_text(month as u64, 2);
            out.append(m.as_str());
            out.append("-");
            let d = padded_text(day as u64, 2);
            out.append(d.as_str());
        },
        (None, Some(day)) => {
            out.append("-??-");
            let d = padded_text(day as u64, 2);
            out.append(d.as_str());
        },
    }
    out
}

impl ReleaseDate {
    #[verifier::type_invariant]
    spec fn valid(&self) -> bool {
        date_fault(
            DateModel { year: self.year as int, month: opt_int(self.month), day: opt_int(self.day) },
        ) is None
    }

    /// The date of these parts. The error holds their written form and what
    /// is wrong with them.
    pub fn new(year: u16, month: Option<u8>, day: Option<u8>) -> (r: Result<
        Self,
        ReleaseDateParseError,
    >)
        ensures
            ({
                let date = DateModel {
                    year: year as int,
                    month: opt_int(month),
                    day: opt_int(day),
                };
                match r {
                    Ok(d) => date_fault(date) is None && d@ == date,
                    Err(error) => date_fault(date) == Some(error.reason@) && error.value@
                        == date_text(date),
                }
            }),
    {
        match validate_release_date(year, month, day) {
            Ok(_) => Ok(ReleaseDate { year, month, day }),
            Err(reason) => Err(
                ReleaseDateParseError { value: date_text_of(year, month, day), reason },
            ),
        }
    }

    pub fn year(&self) -> (r: u16)
        ensures
            r == self@.year,
            r <= 9999,
    {
        proof {
            use_type_invariant(self);
        }
        self.year
    }

    pub fn month(&self) -> (r: Option<u8>)
        ensures
            opt_int(r) == self@.month,
            r is Some ==> 1 <= r->0 <= 12,
    {
        proof {
            use_type_invariant(self);
        }
        self.month
    }

    pub fn day(&self) -> (r: Option<u8>)
        ensures
            opt_int(r) == self@.day,
            r is Some ==> self@.month is Some && is_day(
                self@.year,
                self@.month->0,
                r->0 as int,
            ),
    {
        proof {
            use_type_invariant(self);
        }
        self.day
    }

    /// The date that a text stands for. The error holds the text.
    pub fn parse(value: &str) -> (r: Result<Self, ReleaseDateParseError>)
        ensures
            match r {
                Ok(date) => parsed_date(value@) == Ok::<DateModel, Seq<char>>(date@) && date_text(
                    date@,
                ) == value@,
                Err(error) => parsed_date(value@) == Err::<DateModel, Seq<char>>(error.reason@)
                    && error.value@ == value@,
            },
    {
        let parts = split_text(value, '-');
        assert(forall|i: int|
            0 <= i < parts@.len() ==> #[trigger] parts@[i]@ == texts(parts@)[i]);
        let n: usize = parts.len();
        if !(n <= 3 && has_width(parts[0].as_str(), 4) && (n < 2 || has_width(
            parts[1].as_str(),
            2,
        )) && (n < 3 || has_width(parts[2].as_str(), 2))) {
            return Err(
                ReleaseDateParseError {
                    value: value.to_owned(),
                    reason: "expected YYYY, YYYY-MM, or YYYY-MM-DD",
                },
            );
        }
        proof {
            lemma_unsigned_bound(parts@[0]@, 4);
            if n >= 2 {
                lemma_unsigned_bound(parts@[1]@, 2);
            }
            if n >= 3 {
                lemma_unsigned_bound(parts@[2]@, 2);
            }
        }
        let year: u16 = match parse_unsigned(parts[0].as_str(), 65535) {
            Some(y) => y as u16,
            None => return Err(components_error(value)),
        };
        let month: Option<u8> = if n >= 2 {
            match parse_unsigned(parts[1].as_str(), 255) {
                Some(m) => Some(m as u8),
                None => return Err(components_error(value)),
            }
        } else {
            None
        };
        let day: Option<u8> = if n >= 3 {
            match parse_unsigned(parts[2].as_str(), 255) {
                Some(d) => Some(d as u8),
                None => return Err(components_error(value)),
            }
        } else {
            None
        };
        proof {
            parsed_date_keeps_its_text(value@);
        }
        match ReleaseDate::new(year, month, day) {
            Ok(date) => Ok(date),
            Err(error) => Err(
                ReleaseDateParseError { value: value.to_owned(), reason: error.reason },
            ),
        }
    }

    /// The date that an optional text stands for; a malformed one counts as
    /// absent, so that it does not cost the item it belongs to.
    pub fn parse_lenient(value: Option<&str>) -> (r: Option<Self>)
        ensures
            opt_view(r) == match value {
                Some(s) => match parsed_date(s@) {
                    Ok(date) => Some(date),
                    Err(_) => None,
                },
                None => None,
            },
    {
        match value {
            Some(s) => match ReleaseDate::parse(s) {
                Ok(date) => Some(date),
                Err(_) => None,
            },
            None => None,
        }
    }

    /// The written form, which parses back to this date.
    pub fn text(&self) -> (r: String)
        ensures
            r@ == date_text(self@),
            parsed_date(r@) == Ok::<DateModel, Seq<char>>(self@),
    {
        proof {
            use_type_invariant(self);
            release_date_parses_back(self@);
        }
        date_text_of(self.year, self.month, self.day)
    }
}

impl std::str::FromStr for ReleaseDate {
    type Err = ReleaseDateParseError;

    fn from_str(value: &str) -> (r: Result<Self, Self::Err>)
        ensures
            match r {
                Ok(date) => parsed_date(value@) == Ok::<DateModel, Seq<char>>(date@) && date_text(
                    date@,
                ) == value@,
                Err(error) => parsed_date(value@) == Err::<DateModel, Seq<char>>(error.reason@)
                    && error.value@ == value@,
            },
    {
        ReleaseDate::parse(value)
    }
}

fn components_error(value: &str) -> (r: ReleaseDateParseError)
    ensures
        r.value@ == value@,
        r.reason@ == "date components must be decimal numbers"@,
{
    ReleaseDateParseError {
        value: value.to_owned(),
        reason: "date components must be decimal numbers",
    }
}

fn has_width(s: &str, width: usize) -> (r: bool)
    ensures
        r == (byte_len(s@) == width),
{
    s.as_bytes().len() == width
}

// ---------------------------------------------------------------------------
// Laws
// ---------------------------------------------------------------------------

spec fn pow10(n: nat) -> nat
    decreases n,
{
    if n == 0 {
        1
    } else {
        10 * pow10((n - 1) as nat)
    }
}

proof fn lemma_number_bound(s: Seq<char>)
    requires
        is_digits(s),
    ensures
        number(s) < pow10(s.len()),
    decreases s.len(),
{
    if s.len() > 0 {
        let t = s.drop_last();
        assert forall|i: int| 0 <= i < t.len() implies is_ascii_digit(#[trigger] t[i]) by {
            assert(t[i] == s[i]);
        }
        lemma_number_bound(t);
        assert(is_ascii_digit(s.last()));
    }
}

proof fn lemma_pow10()
    ensures
        pow10(0) == 1,
        pow10(1) == 10,
        pow10(2) == 100,
        pow10(3) == 1000,
        pow10(4) == 10000,
{
    assert(pow10(0) == 1);
    assert(pow10(1) == 10 * pow10(0));
    assert(pow10(2) == 10 * pow10(1));
    assert(pow10(3) == 10 * pow10(2));
    assert(pow10(4) == 10 * pow10(3));
}

/// A numeral takes one byte for each of its characters.
proof fn lemma_numeral_bytes(s: Seq<char>)
    requires
        is_digits(s),
    ensures
        byte_len(s) == s.len(),
{
    assert(is_ascii_chars(s));
    is_ascii_chars_encode_utf8(s);
}

proof fn lemma_unsigned_bound(s: Seq<char>, width: nat)
    requires
        byte_len(s) == width,
        1 <= width <= 4,
    ensures
        unsigned(s) matches Some(n) ==> n < pow10(width),
        pow10(2) == 100,
        pow10(4) == 10000,
{
    lemma_pow10();
    if unsigned(s) is Some {
        lemma_numeral_bytes(s);
        lemma_number_bound(s);
    }
}

proof fn lemma_padded_reads_back(n: nat, width: nat)
    requires
        width == 2 && n < 100 || width == 4 && n < 10000,
    ensures
        byte_len(padded(n, width)) == width,
        unsigned(padded(n, width)) == Some(n),
        forall|i: int| 0 <= i < padded(n, width).len() ==> #[trigger] padded(n, width)[i] != '-',
{
    let p = padded(n, width);
    lemma_decimal(n);
    lemma_padded(n, width);
    lemma_numeral_bytes(p);
    assert(is_ascii_digit(p[0]));
}

/// The written form of a valid date parses back to that date.
pub proof fn release_date_parses_back(date: DateModel)
    requires
        date_fault(date) is None,
        0 <= date.year,
    ensures
        parsed_date(date_text(date)) == Ok::<DateModel, Seq<char>>(date),
{
    reveal_strlit("-");
    assert("-"@ =~= seq!['-']);
    let s = date_text(date);
    let year = padded(date.year as nat, 4);
    lemma_padded_reads_back(date.year as nat, 4);
    match (date.month, date.day) {
        (Some(month), Some(day)) => {
            let m = padded(month as nat, 2);
            let d = padded(day as nat, 2);
            lemma_padded_reads_back(month as nat, 2);
            lemma_padded_reads_back(day as nat, 2);
            assert(s =~= year + seq!['-'] + (m + seq!['-'] + d));
            lemma_pieces_first(year, m + seq!['-'] + d, '-');
            lemma_pieces_first(m, d, '-');
            lemma_pieces_single(d, '-');
            assert(pieces(s, '-') =~= seq![year, m, d]);
        },
        (Some(month), None) => {
            let m = padded(month as nat, 2);
            lemma_padded_reads_back(month as nat, 2);
            lemma_pieces_first(year, m, '-');
            lemma_pieces_single(m, '-');
            assert(pieces(s, '-') =~= seq![year, m]);
        },
        _ => {
            lemma_pieces_single(year, '-');
            assert(pieces(s, '-') =~= seq![year]);
        },
    }
}

/// A text that parses is the written form of its date: no precision is lost
/// or made up, and no other form is accepted.
pub proof fn parsed_date_keeps_its_text(s: Seq<char>)
    ensures
        parsed_date(s) matches Ok(date) ==> date_text(date) == s,
{
    if parsed_date(s) is Ok {
        reveal_strlit("-");
        assert("-"@ =~= seq!['-']);
        let parts = pieces(s, '-');
        let date = parsed_date(s)->Ok_0;
        lemma_pieces_rejoin(s, '-');
        assert forall|k: int| 0 <= k < parts.len() implies (#[trigger] parts[k]).len() > 0
            && is_digits(parts[k]) by {
            assert(unsigned(parts[k]) is Some);
        }
        assert forall|k: int| 0 <= k < parts.len() implies byte_len(#[trigger] parts[k])
            == parts[k].len() by {
            lemma_numeral_bytes(parts[k]);
        }
        lemma_digits_are_padded(parts[0]);
        if parts.len() == 1 {
            assert(date_text(date) == s);
        } else if parts.len() == 2 {
            lemma_digits_are_padded(parts[1]);
            assert(parts.drop_last() =~= seq![parts[0]]);
            assert(joined(parts.drop_last(), seq!['-']) == parts[0]);
            assert(date_text(date) =~= s);
        } else {
            lemma_digits_are_padded(parts[1]);
            lemma_digits_are_padded(parts[2]);
            let two = parts.drop_last();
            assert(two.drop_last() =~= seq![parts[0]]);
            assert(joined(two.drop_last(), seq!['-']) == parts[0]);
            assert(joined(two, seq!['-']) == parts[0] + seq!['-'] + parts[1]);
            assert(date_text(date) =~= s);
        }
    }
}

/// The days of the calendar: thirty-one in seven of the months, thirty in four
/// and twenty-eight in the second, which has one more in every fourth year but
/// for the hundredth ones, of which only every fourth has it.
pub proof fn days_follow_the_calendar(year: int, month: int, day: int)
    ensures
        is_day(year, month, day) <==> {
            ||| (month == 1 || month == 3 || month == 5 || month == 7 || month == 8 || month == 10
                || month == 12) && 1 <= day <= 31
            ||| (month == 4 || month == 6 || month == 9 || month == 11) && 1 <= day <= 30
            ||| month == 2 && 1 <= day <= 28
            ||| month == 2 && day == 29 && year % 4 == 0 && year % 100 != 0
            ||| month == 2 && day == 29 && year % 400 == 0
        },
{
    if year % 400 == 0 {
        assert(year % 4 == 0 && year % 100 == 0);
    }
}

/// A date is a year of up to four digits, a month of such a year, or a day of
/// the calendar; a day without its month is none.
pub proof fn dates_are_years_months_or_days(date: DateModel)
    ensures
        date_fault(date) is None <==> date.year <= 9999 && match (date.month, date.day) {
            (None, None) => true,
            (None, Some(_)) => false,
            (Some(month), None) => 1 <= month && month <= 12,
            (Some(month), Some(day)) => is_day(date.year, month, day),
        },
        date.year > 9999 ==> date_fault(date) == Some("year must use at most four digits"@),
        date.year <= 9999 && date.month is None && date.day is Some ==> date_fault(date) == Some(
            "day requires a month"@,
        ),
        date.year <= 9999 && date.day is None && date.month is Some && date_fault(date) is Some
            ==> date_fault(date) == Some("month must be between 01 and 12"@),
        date.year <= 9999 && date.month is Some && date.day is Some && date_fault(date) is Some
            ==> date_fault(date) == Some("date is not valid"@),
{
}

/// A text of one, two or three parts between hyphens, of the widths of a year,
/// a month and a day, is read part by part. Any other text has the wrong form;
/// a part that is no numeral is told next, and then what is wrong with the
/// date.
pub proof fn written_dates_are_read_part_by_part(s: Seq<char>)
    ensures
        ({
            let parts = pieces(s, '-');
            let formed = encode_utf8(parts[0]).len() == 4 && (parts.len() == 1 || encode_utf8(
                parts[1],
            ).len() == 2 && (parts.len() == 2 || parts.len() == 3 && encode_utf8(parts[2]).len()
                == 2));
            let numeric = forall|i: int|
                0 <= i < parts.len() ==> unsigned(#[trigger] parts[i]) is Some;
            &&& !formed ==> parsed_date(s) == Err::<DateModel, Seq<char>>(
                "expected YYYY, YYYY-MM, or YYYY-MM-DD"@,
            )
            &&& formed && !numeric ==> parsed_date(s) == Err::<DateModel, Seq<char>>(
                "date components must be decimal numbers"@,
            )
            &&& parsed_date(s) matches Ok(date) ==> {
                &&& formed && numeric && Some(date.year) == Some(unsigned(parts[0])->0 as int)
                &&& date.month is Some <==> parts.len() > 1
                &&& date.day is Some <==> parts.len() > 2
                &&& parts.len() > 1 ==> date.month == Some(unsigned(parts[1])->0 as int)
                &&& parts.len() > 2 ==> date.day == Some(unsigned(parts[2])->0 as int)
                &&& date_fault(date) is None
            }
            &&& formed && numeric && parsed_date(s) is Err ==> exists|date: DateModel|
                date.year == unsigned(parts[0])->0 && (date.month is Some <==> parts.len() > 1) && (
                date.day is Some <==> parts.len() > 2) && Some(parsed_date(s)->Err_0)
                    == #[trigger] date_fault(date)
        }),
{
    let parts = pieces(s, '-');
    lemma_pieces_rejoin(s, '-');
    let formed = encode_utf8(parts[0]).len() == 4 && (parts.len() == 1 || encode_utf8(
        parts[1],
    ).len() == 2 && (parts.len() == 2 || parts.len() == 3 && encode_utf8(parts[2]).len() == 2));
    assert(formed == date_widths(parts));
    let numeric = forall|i: int| 0 <= i < parts.len() ==> unsigned(#[trigger] parts[i]) is Some;
    if formed {
        let bad = unsigned(parts[0]) is None || (parts.len() >= 2 && unsigned(parts[1]) is None) || (
        parts.len() == 3 && unsigned(parts[2]) is None);
        assert(numeric <==> !bad) by {
            if !bad {
                assert forall|i: int| 0 <= i < parts.len() implies unsigned(
                    #[trigger] parts[i],
                ) is Some by {
                    assert(i == 0 || i == 1 || i == 2);
                }
            }
        }
        if numeric {
            let date = DateModel {
                year: unsigned(parts[0])->0 as int,
                month: if parts.len() >= 2 {
                    Some(unsigned(parts[1])->0 as int)
                } else {
                    None
                },
                day: if parts.len() == 3 {
                    Some(unsigned(parts[2])->0 as int)
                } else {
                    None
                },
            };
            assert(parsed_date(s) == match date_fault(date) {
                Some(reason) => Err::<DateModel, Seq<char>>(reason),
                None => Ok(date),
            });
        }
    }
}

/// Dates are read, built and written as is told of them.
pub proof fn dates_are_read_as_told()
    ensures
        forall|
            year: u16,
            month: Option<u8>,
            day: Option<u8>,
            answer: Result<ReleaseDate, ReleaseDateParseError>,
        |
            #[trigger] call_ensures(ReleaseDate::new, (year, month, day), answer) ==> {
                &&& ({
                    let date = DateModel {
                        year: year as int,
                        month: opt_int(month),
                        day: opt_int(day),
                    };
                    match answer {
                        Ok(d) => date_fault(date) is None && d@ == date,
                        Err(error) => date_fault(date) == Some(error.reason@) && error.value@
                            == date_text(date),
                    }
                })
            },
        forall|value: &str, answer: Result<ReleaseDate, ReleaseDateParseError>|
            #[trigger] call_ensures(ReleaseDate::parse, (value,), answer) ==> {
                &&& match answer {
                    Ok(date) => parsed_date(value@) == Ok::<DateModel, Seq<char>>(date@) && date_text(
                        date@,
                    ) == value@,
                    Err(error) => parsed_date(value@) == Err::<DateModel, Seq<char>>(error.reason@)
                        && error.value@ == value@,
                }
            },
        forall|this: &ReleaseDate, answer: String|
            #[trigger] call_ensures(ReleaseDate::text, (this,), answer) ==> {
                &&& answer@ == date_text(this@)
                &&& parsed_date(answer@) == Ok::<DateModel, Seq<char>>(this@)
            },
{
}

} // verus!
