//! Calendar instants in UTC and the liberal parser that produces them.

use vstd::prelude::*;
use chrono::{Datelike, NaiveDate, NaiveTime, Timelike, Utc};
use crate::numbers::{all_digits, decimal, digits_value, is_digit, push_decimal, read_int};
use crate::text::{append_str, chars_of, string_of, views};

verus! {

/// The six calendar fields of an instant, as mathematical integers.
pub struct Civil {
    pub year: int,
    pub month: int,
    pub day: int,
    pub hour: int,
    pub minute: int,
    pub second: int,
}

/// Whether `year` is a leap year of the proleptic Gregorian calendar.
pub open spec fn is_leap_year(year: int) -> bool {
    year % 4 == 0 && (year % 100 != 0 || year % 400 == 0)
}

/// The number of days of month `month` (1 to 12) in `year`.
pub open spec fn days_in_month(year: int, month: int) -> int {
    if month == 2 {
        if is_leap_year(year) {
            29
        } else {
            28
        }
    } else if month == 4 || month == 6 || month == 9 || month == 11 {
        30
    } else {
        31
    }
}

/// The first and the last year that a date can lie in.
pub open spec fn min_year() -> int {
    -262143
}

pub open spec fn max_year() -> int {
    262142
}

/// Whether the calendar has the day `year`-`month`-`day`.
pub open spec fn date_exists(year: int, month: int, day: int) -> bool {
    &&& min_year() <= year <= max_year()
    &&& 1 <= month <= 12
    &&& 1 <= day <= days_in_month(year, month)
}

/// Whether the clock shows `hour`:`minute`:`second`.
pub open spec fn time_exists(hour: int, minute: int, second: int) -> bool {
    0 <= hour < 24 && 0 <= minute < 60 && 0 <= second < 60
}

impl Civil {
    /// Whether both the date and the time of day exist.
    pub open spec fn on_calendar(self) -> bool {
        date_exists(self.year, self.month, self.day) && time_exists(
            self.hour,
            self.minute,
            self.second,
        )
    }

    /// Whether `self` is a strictly later instant than `other`.
    pub open spec fn later_than(self, other: Civil) -> bool {
        if self.year != other.year {
            self.year > other.year
        } else if self.month != other.month {
            self.month > other.month
        } else if self.day != other.day {
            self.day > other.day
        } else if self.hour != other.hour {
            self.hour > other.hour
        } else if self.minute != other.minute {
            self.minute > other.minute
        } else {
            self.second > other.second
        }
    }
}

/// An instant in UTC with a resolution of one second, held as an existing
/// calendar date and time of day.
#[derive(Clone, Copy, Debug, PartialEq, Eq, Structural, PartialOrd, Ord, Hash)]
pub struct Timestamp {
    year: i32,
    month: u32,
    day: u32,
    hour: u32,
    minute: u32,
    second: u32,
}

impl View for Timestamp {
    type V = Civil;

    closed spec fn view(&self) -> Civil {
        Civil {
            year: self.year as int,
            month: self.month as int,
            day: self.day as int,
            hour: self.hour as int,
            minute: self.minute as int,
            second: self.second as int,
        }
    }
}

/// `NaiveDate::from_ymd_opt` of chrono yields a date exactly for the days
/// that the proleptic Gregorian calendar has between its first and last
/// representable year.
#[verifier::external_body]
fn calendar_has_date(year: i32, month: u32, day: u32) -> (ok: bool)
    ensures
        ok == date_exists(year as int, month as int, day as int),
{
    NaiveDate::from_ymd_opt(year, month, day).is_some()
}

/// `NaiveTime::from_hms_opt` of chrono yields a time of day exactly when the
/// hour is below 24 and minute and second are below 60.
#[verifier::external_body]
fn clock_has_time(hour: u32, minute: u32, second: u32) -> (ok: bool)
    ensures
        ok == time_exists(hour as int, minute as int, second as int),
{
    NaiveTime::from_hms_opt(hour, minute, second).is_some()
}

/// `Utc::now` of chrono reads the system clock. Nothing is claimed of the
/// instant but that its calendar fields exist. The call panics where the
/// system clock stands before 1970.
#[verifier::external_body]
fn utc_now() -> (t: Timestamp)
    ensures
        t@.on_calendar(),
{
    let now = Utc::now();
    Timestamp {
        year: now.year(),
        month: now.month(),
        day: now.day(),
        hour: now.hour(),
        minute: now.minute(),
        second: now.second(),
    }
}

/// The year as `%Y` prints it: four digits, zero-padded, for the years 0 to
/// 9999; otherwise a sign followed by at least four digits.
pub open spec fn year_text(year: int) -> Seq<char> {
    if 0 <= year <= 9999 {
        padded(year as nat, 4)
    } else if year > 9999 {
        seq!['+'] + decimal(year as nat)
    } else {
        seq!['-'] + padded((-year) as nat, 4)
    }
}

/// The decimal numeral of `n`, with zeros in front up to `width` digits.
pub open spec fn padded(n: nat, width: nat) -> Seq<char>
    decreases width,
{
    if decimal(n).len() >= width {
        decimal(n)
    } else {
        seq!['0'] + padded(n, (width - 1) as nat)
    }
}

/// The text `YYYY-MM-DD HH:MM:SS` of an instant.
pub open spec fn civil_text(c: Civil) -> Seq<char> {
    year_text(c.year) + seq!['-'] + padded(c.month as nat, 2) + seq!['-'] + padded(
        c.day as nat,
        2,
    ) + seq![' '] + padded(c.hour as nat, 2) + seq![':'] + padded(c.minute as nat, 2) + seq![':']
        + padded(c.second as nat, 2)
}

/// `NaiveDateTime::format` of chrono, given the pattern
/// `%Y-%m-%d %H:%M:%S`, prints the year as [`year_text`] says and the other
/// five fields with two digits each.
#[verifier::external_body]
fn format_civil(
    year: i32,
    month: u32,
    day: u32,
    hour: u32,
    minute: u32,
    second: u32,
    pattern: &str,
) -> (s: String)
    requires
        date_exists(year as int, month as int, day as int),
        time_exists(hour as int, minute as int, second as int),
        pattern@ == "%Y-%m-%d %H:%M:%S"@,
    ensures
        s@ == civil_text(
            Civil {
                year: year as int,
                month: month as int,
                day: day as int,
                hour: hour as int,
                minute: minute as int,
                second: second as int,
            },
        ),
{
    let date = NaiveDate::from_ymd_opt(year, month, day).unwrap();
    let time = NaiveTime::from_hms_opt(hour, minute, second).unwrap();
    date.and_time(time).format(pattern).to_string()
}

impl Timestamp {
    #[verifier::type_invariant]
    spec fn fields_exist(self) -> bool {
        self@.on_calendar()
    }

    /// The instant with the given calendar fields, if there is one.
    pub fn from_parts(year: i32, month: u32, day: u32, hour: u32, minute: u32, second: u32) -> (r:
        Option<Timestamp>)
        ensures
            r is Some <==> date_exists(year as int, month as int, day as int) && time_exists(
                hour as int,
                minute as int,
                second as int,
            ),
            r matches Some(t) ==> t@ == (Civil {
                year: year as int,
                month: month as int,
                day: day as int,
                hour: hour as int,
                minute: minute as int,
                second: second as int,
            }),
    {
        if calendar_has_date(year, month, day) && clock_has_time(hour, minute, second) {
            Some(Timestamp { year, month, day, hour, minute, second })
        } else {
            None
        }
    }

    /// The current instant of the system clock.
    pub fn now() -> (t: Timestamp)
        ensures
            t@.on_calendar(),
    {
        utc_now()
    }

    pub fn year(&self) -> (r: i32)
        ensures
            r == self@.year,
            min_year() <= r <= max_year(),
    {
        proof {
            use_type_invariant(self);
        }
        self.year
    }

    pub fn month(&self) -> (r: u32)
        ensures
            r == self@.month,
            1 <= r <= 12,
    {
        proof {
            use_type_invariant(self);
        }
        self.month
    }

    pub fn day(&self) -> (r: u32)
        ensures
            r == self@.day,
            1 <= r <= days_in_month(self@.year, self@.month),
    {
        proof {
            use_type_invariant(self);
        }
        self.day
    }

    pub fn hour(&self) -> (r: u32)
        ensures
            r == self@.hour,
            r < 24,
    {
        proof {
            use_type_invariant(self);
        }
        self.hour
    }

    pub fn minute(&self) -> (r: u32)
        ensures
            r == self@.minute,
            r < 60,
    {
        proof {
            use_type_invariant(self);
        }
        self.minute
    }

    pub fn second(&self) -> (r: u32)
        ensures
            r == self@.second,
            r < 60,
    {
        proof {
            use_type_invariant(self);
        }
        self.second
    }

    /// Every instant has calendar fields that exist. Calling this makes the
    /// fact known where an instant was handed in.
    pub fn on_calendar_witness(&self)
        ensures
            self@.on_calendar(),
    {
        proof {
            use_type_invariant(self);
        }
    }

    /// Whether `self` is a strictly later instant than `other`.
    pub fn is_after(&self, other: &Timestamp) -> (r: bool)
        ensures
            r == self@.later_than(other@),
    {
        if self.year != other.year {
            self.year > other.year
        } else if self.month != other.month {
            self.month > other.month
        } else if self.day != other.day {
            self.day > other.day
        } else if self.hour != other.hour {
            self.hour > other.hour
        } else if self.minute != other.minute {
            self.minute > other.minute
        } else {
            self.second > other.second
        }
    }

    /// The instant as `YYYY-MM-DD HH:MM:SS`.
    pub fn to_text(&self) -> (s: String)
        ensures
            s@ == civil_text(self@),
    {
        proof {
            use_type_invariant(self);
        }
        format_civil(
            self.year,
            self.month,
            self.day,
            self.hour,
            self.minute,
            self.second,
            "%Y-%m-%d %H:%M:%S",
        )
    }
}

/// Two instants with the same calendar fields are the same instant.
pub proof fn lemma_timestamp_by_fields(a: Timestamp, b: Timestamp)
    requires
        a@ == b@,
    ensures
        a == b,
{
}

/// Of two different instants exactly one is later than the other, and
/// "later than" is transitive: instants are totally ordered.
pub proof fn lemma_later_than_total(a: Civil, b: Civil, c: Civil)
    ensures
        !a.later_than(a),
        a != b ==> (a.later_than(b) <==> !b.later_than(a)),
        a.later_than(b) && b.later_than(c) ==> a.later_than(c),
{
}

/// Why a text could not be read as an instant.
#[derive(Debug, Clone)]
pub enum ParseTimestampError {
    /// The text, which holds no usable group of digits.
    NoDigits(String),
    /// A message naming the date or the time of day that does not exist.
    ChronoError(String),
}

impl ParseTimestampError {
    /// The sentence that describes the error.
    pub fn message(&self) -> (s: String)
        ensures
            s@ == match *self {
                ParseTimestampError::NoDigits(text) => "timestamp \""@ + text@ + "\" has no digits"@,
                ParseTimestampError::ChronoError(text) => "invalid timestamp: "@ + text@,
            },
    {
        let mut out: Vec<char> = Vec::new();
        match self {
            ParseTimestampError::NoDigits(text) => {
                append_str(&mut out, "timestamp \"");
                append_str(&mut out, text.as_str());
                append_str(&mut out, "\" has no digits");
            },
            ParseTimestampError::ChronoError(text) => {
                append_str(&mut out, "invalid timestamp: ");
                append_str(&mut out, text.as_str());
            },
        }
        string_of(&out)
    }
}

/// The text cut at every character that is not a digit: the maximal runs of
/// digits, with an empty run wherever two cuts are adjacent or a cut stands
/// at either end.
pub open spec fn digit_runs(s: Seq<char>) -> Seq<Seq<char>>
    decreases s.len(),
{
    if s.len() == 0 {
        seq![Seq::<char>::empty()]
    } else {
        let head = digit_runs(s.drop_last());
        if is_digit(s.last()) {
            head.drop_last().push(head.last().push(s.last()))
        } else {
            head.push(Seq::<char>::empty())
        }
    }
}

/// Whether a run of digits counts as a field: it is not empty and its value
/// fits a signed 32-bit integer.
pub open spec fn is_field(run: Seq<char>) -> bool {
    run.len() > 0 && digits_value(run) <= i32::MAX
}

/// The values of the runs that count as fields, in order.
pub open spec fn field_values(runs: Seq<Seq<char>>) -> Seq<int>
    decreases runs.len(),
{
    if runs.len() == 0 {
        Seq::<int>::empty()
    } else {
        let head = field_values(runs.drop_last());
        if is_field(runs.last()) {
            head.push(digits_value(runs.last()))
        } else {
            head
        }
    }
}

/// The day that stands for a missing one: the last day of the month, or 31
/// where the calendar has no such month.
pub open spec fn default_day(year: int, month: int) -> int {
    if date_exists(year, month, 1) {
        days_in_month(year, month)
    } else {
        31
    }
}

/// The six fields that the numbers found in a text stand for: year, month,
/// day, hour, minute, second, a missing one replaced so that the instant is
/// the latest that the given fields allow.
pub open spec fn fields_with_defaults(f: Seq<int>) -> Civil
    recommends
        f.len() >= 1,
{
    let year = f[0];
    let month = if f.len() > 1 {
        f[1]
    } else {
        12
    };
    Civil {
        year,
        month,
        day: if f.len() > 2 {
            f[2]
        } else {
            default_day(year, month)
        },
        hour: if f.len() > 3 {
            f[3]
        } else {
            23
        },
        minute: if f.len() > 4 {
            f[4]
        } else {
            59
        },
        second: if f.len() > 5 {
            f[5]
        } else {
            59
        },
    }
}

/// What reading a text as an instant comes to.
pub enum Reading {
    /// The text holds no field.
    NoDigits,
    /// The fields name a date that does not exist.
    NoSuchDate(Civil),
    /// The date exists, the time of day does not.
    NoSuchTime(Civil),
    /// The instant.
    Instant(Civil),
}

/// The reading of `input`.
pub open spec fn read_timestamp(input: Seq<char>) -> Reading {
    let f = field_values(digit_runs(input));
    if f.len() == 0 {
        Reading::NoDigits
    } else {
        let c = fields_with_defaults(f);
        if !date_exists(c.year, c.month, c.day) {
            Reading::NoSuchDate(c)
        } else if !time_exists(c.hour, c.minute, c.second) {
            Reading::NoSuchTime(c)
        } else {
            Reading::Instant(c)
        }
    }
}

/// The message for a date that does not exist.
pub open spec fn no_such_date_text(c: Civil) -> Seq<char> {
    "invalid date: "@ + decimal(c.year as nat) + "-"@ + decimal(c.month as nat) + "-"@ + decimal(
        c.day as nat,
    )
}

/// The message for a time of day that does not exist.
pub open spec fn no_such_time_text(c: Civil) -> Seq<char> {
    "invalid time: "@ + decimal(c.hour as nat) + ":"@ + decimal(c.minute as nat) + ":"@ + decimal(
        c.second as nat,
    )
}

/// Every run consists of digits only, and there is at least one run.
pub proof fn lemma_digit_runs(s: Seq<char>)
    ensures
        digit_runs(s).len() >= 1,
        forall|i: int| 0 <= i < digit_runs(s).len() ==> all_digits(#[trigger] digit_runs(s)[i]),
    decreases s.len(),
{
    if s.len() > 0 {
        lemma_digit_runs(s.drop_last());
        let head = digit_runs(s.drop_last());
        let runs = digit_runs(s);
        assert forall|i: int| 0 <= i < runs.len() implies all_digits(#[trigger] runs[i]) by {
            if is_digit(s.last()) {
                if i < runs.len() - 1 {
                    assert(runs[i] == head[i]);
                } else {
                    assert(all_digits(head.last()));
                    let grown = head.last().push(s.last());
                    assert(runs[i] == grown);
                    assert forall|k: int| 0 <= k < grown.len() implies is_digit(
                        #[trigger] grown[k],
                    ) by {
                        if k < head.last().len() {
                            assert(grown[k] == head.last()[k]);
                        }
                    }
                }
            } else {
                if i < runs.len() - 1 {
                    assert(runs[i] == head[i]);
                }
            }
        }
    }
}

/// Cuts `s` into its runs of digits.
fn cut_digit_runs(s: &Vec<char>) -> (runs: Vec<Vec<char>>)
    ensures
        views(runs@) == digit_runs(s@),
{
    let mut runs: Vec<Vec<char>> = Vec::new();
    let mut cur: Vec<char> = Vec::new();
    let mut i: usize = 0;
    while i < s.len()
        invariant
            i <= s.len(),
            views(runs@).push(cur@) == digit_runs(s@.take(i as int)),
        decreases s.len() - i,
    {
        let c = s[i];
        let ghost before = views(runs@).push(cur@);
        proof {
            assert(s@.take(i + 1).drop_last() == s@.take(i as int));
            assert(s@.take(i + 1).last() == c);
            assert(before.drop_last() == views(runs@));
            assert(before.last() == cur@);
        }
        if c >= '0' && c <= '9' {
            cur.push(c);
        } else {
            runs.push(cur);
            cur = Vec::new();
            assert(views(runs@) == before);
        }
        i += 1;
    }
    assert(s@.take(s.len() as int) == s@);
    let ghost whole = views(runs@).push(cur@);
    runs.push(cur);
    assert(views(runs@) == whole);
    runs
}

/// The numbers that the runs of digits in `s` write, skipping every run
/// whose value does not fit a signed 32-bit integer.
fn read_fields(s: &Vec<char>) -> (fields: Vec<i32>)
    ensures
        fields@.len() == field_values(digit_runs(s@)).len(),
        forall|i: int|
            0 <= i < fields@.len() ==> fields@[i] as int == field_values(digit_runs(s@))[i],
        forall|i: int| 0 <= i < fields@.len() ==> 0 <= #[trigger] fields@[i],
{
    let runs = cut_digit_runs(s);
    let mut fields: Vec<i32> = Vec::new();
    let mut i: usize = 0;
    proof {
        lemma_digit_runs(s@);
    }
    while i < runs.len()
        invariant
            i <= runs.len(),
            views(runs@) == digit_runs(s@),
            forall|k: int| 0 <= k < digit_runs(s@).len() ==> all_digits(#[trigger] digit_runs(s@)[k]),
            fields@.len() == field_values(digit_runs(s@).take(i as int)).len(),
            forall|k: int|
                0 <= k < fields@.len() ==> fields@[k] as int == field_values(
                    digit_runs(s@).take(i as int),
                )[k],
            forall|k: int| 0 <= k < fields@.len() ==> 0 <= #[trigger] fields@[k],
        decreases runs.len() - i,
    {
        let ghost all = digit_runs(s@);
        let ghost run = all[i as int];
        proof {
            assert(all.take(i + 1).drop_last() == all.take(i as int));
            assert(all.take(i + 1).last() == run);
            assert(views(runs@)[i as int] == runs@[i as int]@);
            assert(all_digits(run));
            crate::numbers::lemma_digits_value_nonneg(run);
            if run.len() > 0 {
                assert(is_digit(run[0]));
            }
        }
        match read_int(&runs[i], 0, 0x7fff_ffff) {
            Some(v) => {
                fields.push(v as i32);
            },
            None => {},
        }
        i += 1;
    }
    assert(digit_runs(s@).take(runs.len() as int) == digit_runs(s@));
    fields
}

/// The last day of the month, or 31 where the calendar has no such month.
fn last_day_of_month(year: i32, month: u32) -> (day: u32)
    ensures
        day == default_day(year as int, month as int),
{
    if calendar_has_date(year, month, 31) {
        31
    } else if calendar_has_date(year, month, 30) {
        30
    } else if calendar_has_date(year, month, 29) {
        29
    } else if calendar_has_date(year, month, 28) {
        28
    } else {
        31
    }
}

fn field_or(fields: &Vec<i32>, at: usize, otherwise: u32) -> (r: u32)
    requires
        forall|i: int| 0 <= i < fields@.len() ==> 0 <= #[trigger] fields@[i],
    ensures
        r == if at < fields@.len() {
            fields@[at as int] as int
        } else {
            otherwise as int
        },
{
    if at < fields.len() {
        fields[at] as u32
    } else {
        otherwise
    }
}

/// Whether `r` is what reading `input` must return: the instant, or the
/// error with its text.
pub open spec fn is_reading_of(r: Result<Timestamp, ParseTimestampError>, input: Seq<char>) -> bool {
    match read_timestamp(input) {
        Reading::Instant(c) => r matches Ok(t) && t@ == c,
        Reading::NoDigits => r matches Err(ParseTimestampError::NoDigits(text)) && text@ == input,
        Reading::NoSuchDate(c) => r matches Err(ParseTimestampError::ChronoError(text)) && text@
            == no_such_date_text(c),
        Reading::NoSuchTime(c) => r matches Err(ParseTimestampError::ChronoError(text)) && text@
            == no_such_time_text(c),
    }
}

/// Reads a liberal ISO-like timestamp.
///
/// The text is cut at every character that is not a digit. The first six
/// numbers found are year, month, day, hour, minute and second; a missing
/// one defaults so that the result is the latest instant of the interval
/// that the given fields name.
pub fn parse_timestamp(input: &str) -> (r: Result<Timestamp, ParseTimestampError>)
    ensures
        is_reading_of(r, input@),
{
    let chars = chars_of(input);
    let fields = read_fields(&chars);
    if fields.len() == 0 {
        return Err(ParseTimestampError::NoDigits(string_of(&chars)));
    }
    let year: i32 = fields[0];
    let month = field_or(&fields, 1, 12);
    let fallback_day = last_day_of_month(year, month);
    let day = field_or(&fields, 2, fallback_day);
    let hour = field_or(&fields, 3, 23);
    let minute = field_or(&fields, 4, 59);
    let second = field_or(&fields, 5, 59);
    let ghost c = fields_with_defaults(field_values(digit_runs(input@)));
    assert(c.year == year && c.month == month && c.day == day);
    assert(c.hour == hour && c.minute == minute && c.second == second);
    if !calendar_has_date(year, month, day) {
        let mut out: Vec<char> = Vec::new();
        append_str(&mut out, "invalid date: ");
        push_decimal(&mut out, year as u64);
        append_str(&mut out, "-");
        push_decimal(&mut out, month as u64);
        append_str(&mut out, "-");
        push_decimal(&mut out, day as u64);
        assert(out@ == no_such_date_text(c));
        return Err(ParseTimestampError::ChronoError(string_of(&out)));
    }
    if !clock_has_time(hour, minute, second) {
        let mut out: Vec<char> = Vec::new();
        append_str(&mut out, "invalid time: ");
        push_decimal(&mut out, hour as u64);
        append_str(&mut out, ":");
        push_decimal(&mut out, minute as u64);
        append_str(&mut out, ":");
        push_decimal(&mut out, second as u64);
        assert(out@ == no_such_time_text(c));
        return Err(ParseTimestampError::ChronoError(string_of(&out)));
    }
    Ok(Timestamp { year, month, day, hour, minute, second })
}

/// The fields of an instant in the order in which a text gives them.
pub open spec fn field_list(c: Civil) -> Seq<int> {
    seq![c.year, c.month, c.day, c.hour, c.minute, c.second]
}

/// The defaults make a text that gives only the first fields of an instant
/// stand for the latest instant that begins with those fields: no instant
/// on the calendar with the same first `given` fields is later.
pub proof fn lemma_defaults_are_latest(c: Civil, given: int)
    requires
        c.on_calendar(),
        1 <= given <= 6,
    ensures
        fields_with_defaults(field_list(c).take(given)).on_calendar(),
        !c.later_than(fields_with_defaults(field_list(c).take(given))),
{
    let f = field_list(c).take(given);
    assert(f.len() == given);
    assert(f[0] == c.year);
    if given > 1 {
        assert(f[1] == c.month);
    }
    if given > 2 {
        assert(f[2] == c.day);
    }
    if given > 3 {
        assert(f[3] == c.hour);
    }
    if given > 4 {
        assert(f[4] == c.minute);
    }
    if given > 5 {
        assert(f[5] == c.second);
    }
}

} // verus!
