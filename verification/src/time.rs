//! Timestamps: moments as they are written, and as milliseconds.

use vstd::prelude::*;

use crate::line::TIMESTAMP_LENGTH;
use crate::number::digit_char;

verus! {

/// The layout of a timestamp, in the notation of `strftime`.
pub const TIMESTAMP_FORMAT: &'static str = "%Y/%m/%d %H:%M:%S%.3f %z";

/// A moment as a timestamp writes it: a date of the Gregorian calendar, a time
/// of day, and how far that time is ahead of UTC, or behind it.
pub struct Stamp {
    pub year: nat,
    pub month: nat,
    pub day: nat,
    pub hour: nat,
    pub minute: nat,
    pub second: nat,
    pub millisecond: nat,
    pub ahead: bool,
    pub offset_hours: nat,
    pub offset_minutes: nat,
}

/// Every fourth year is a leap year, but of the full centuries only every fourth.
pub open spec fn is_leap(year: nat) -> bool {
    year % 4 == 0 && (year % 100 != 0 || year % 400 == 0)
}

/// How many days a month has.
pub open spec fn days_in_month(year: nat, month: nat) -> nat {
    if month == 2 {
        if is_leap(year) {
            29
        } else {
            28
        }
    } else if month == 4 || month == 6 || month == 9 || month == 11 {
        30
    } else {
        31
    }
}

/// How many days the months of a year before the given one have.
pub open spec fn days_before_month(year: nat, month: nat) -> nat
    decreases month,
{
    if month <= 1 {
        0
    } else {
        days_before_month(year, (month - 1) as nat) + days_in_month(year, (month - 1) as nat)
    }
}

/// How many days lie between the beginnings of the year zero and of the given one.
pub open spec fn days_before_year(year: nat) -> nat {
    (365 * year + (year + 3) / 4 - (year + 99) / 100 + (year + 399) / 400) as nat
}

/// The digits of `n` in base ten, with as many leading zeros as `width` asks for.
pub open spec fn padded(n: nat, width: nat) -> Seq<char>
    decreases width,
{
    if width == 0 {
        Seq::empty()
    } else {
        padded(n / 10, (width - 1) as nat).push(digit_char(n % 10))
    }
}

impl Stamp {
    /// There is such a moment, and its parts have the width of their fields.
    pub open spec fn valid(self) -> bool {
        &&& self.year <= 9999
        &&& 1 <= self.month <= 12
        &&& 1 <= self.day <= days_in_month(self.year, self.month)
        &&& self.hour < 24
        &&& self.minute < 60
        &&& self.second < 60
        &&& self.millisecond < 1000
        &&& self.offset_hours < 24
        &&& self.offset_minutes < 60
    }

    /// The moment as it is written in the layout `TIMESTAMP_FORMAT`.
    pub open spec fn text(self) -> Seq<char> {
        padded(self.year, 4) + seq!['/'] + padded(self.month, 2) + seq!['/'] + padded(self.day, 2)
            + seq![' '] + padded(self.hour, 2) + seq![':'] + padded(self.minute, 2) + seq![':']
            + padded(self.second, 2) + seq!['.'] + padded(self.millisecond, 3) + seq![
            ' ',
            if self.ahead {
                '+'
            } else {
                '-'
            },
        ] + padded(self.offset_hours, 2) + seq![':'] + padded(self.offset_minutes, 2)
    }

    /// How many minutes the time of day is ahead of UTC.
    pub open spec fn offset(self) -> int {
        let minutes = self.offset_hours * 60 + self.offset_minutes;
        if self.ahead {
            minutes as int
        } else {
            -minutes
        }
    }

    /// The milliseconds between the beginning of 1970 in UTC and the moment.
    pub open spec fn millis(self) -> int {
        let days = days_before_year(self.year) + days_before_month(self.year, self.month)
            + self.day - 1 - days_before_year(1970);
        let minutes = (days * 24 + self.hour) * 60 + self.minute - self.offset();
        (minutes * 60 + self.second) * 1000 + self.millisecond
    }
}

/// The milliseconds since the Unix epoch of the moment that `text` writes in
/// the layout `format`, as `chrono` reads it. `None` where it reads no such moment.
pub uninterp spec fn date_time_millis(text: Seq<char>, format: Seq<char>) -> Option<i64>;

/// Calls `chrono::DateTime::parse_from_str` and asks the moment that it gives for its
/// `timestamp_millis`. What comes back is claimed to depend on the text and the
/// format alone. In the layout `TIMESTAMP_FORMAT` a moment with all its fields
/// is claimed to be read as its milliseconds; what other texts and formats stand
/// for is not claimed.
#[verifier::external_body]
pub(crate) fn read_date_time(text: &str, format: &str) -> (millis: Option<i64>)
    ensures
        millis == date_time_millis(text@, format@),
        forall|stamp: Stamp|
            stamp.valid() && text@ == #[trigger] stamp.text() && format@ == TIMESTAMP_FORMAT@
                ==> millis == Some(stamp.millis() as i64),
{
    match chrono::DateTime::parse_from_str(text, format) {
        Ok(moment) => Some(moment.timestamp_millis()),
        Err(_) => None,
    }
}

/// A text that writes a moment in the layout `TIMESTAMP_FORMAT` is read as that moment.
pub open spec fn stamps_are_read(text: Seq<char>) -> bool {
    forall|stamp: Stamp|
        stamp.valid() && text == #[trigger] stamp.text() ==> date_time_millis(
            text,
            TIMESTAMP_FORMAT@,
        ) == Some(stamp.millis() as i64)
}

proof fn lemma_padded_width(n: nat, width: nat)
    ensures
        padded(n, width).len() == width,
    decreases width,
{
    if width > 0 {
        lemma_padded_width(n / 10, (width - 1) as nat);
    }
}

/// Every timestamp takes the same number of characters.
pub proof fn law_stamps_have_one_length(stamp: Stamp)
    ensures
        stamp.text().len() == TIMESTAMP_LENGTH,
{
    lemma_padded_width(stamp.year, 4);
    lemma_padded_width(stamp.month, 2);
    lemma_padded_width(stamp.day, 2);
    lemma_padded_width(stamp.hour, 2);
    lemma_padded_width(stamp.minute, 2);
    lemma_padded_width(stamp.second, 2);
    lemma_padded_width(stamp.millisecond, 3);
    lemma_padded_width(stamp.offset_hours, 2);
    lemma_padded_width(stamp.offset_minutes, 2);
}

/// The months of a year before the given one, one after another.
proof fn lemma_months(year: nat)
    ensures
        days_before_month(year, 13) == if is_leap(year) {
            366nat
        } else {
            365
        },
        forall|month: nat| month <= 12 ==> #[trigger] days_before_month(year, month) <= 335,
{
    let february = days_in_month(year, 2);
    assert(days_before_month(year, 0) == 0);
    assert(days_before_month(year, 1) == 0);
    assert(days_before_month(year, 2) == 31);
    assert(days_before_month(year, 3) == 31 + february);
    assert(days_before_month(year, 4) == 62 + february);
    assert(days_before_month(year, 5) == 92 + february);
    assert(days_before_month(year, 6) == 123 + february);
    assert(days_before_month(year, 7) == 153 + february);
    assert(days_before_month(year, 8) == 184 + february);
    assert(days_before_month(year, 9) == 215 + february);
    assert(days_before_month(year, 10) == 245 + february);
    assert(days_before_month(year, 11) == 276 + february);
    assert(days_before_month(year, 12) == 306 + february);
}

/// The milliseconds of a timestamp are those of a 64-bit integer.
pub proof fn law_moments_are_counted(stamp: Stamp)
    requires
        stamp.valid(),
    ensures
        i64::MIN <= stamp.millis() <= i64::MAX,
{
    lemma_months(stamp.year);
}

/// A year is as long as its months are together, and the next one begins after it.
pub proof fn law_years_follow_each_other(year: nat)
    ensures
        days_before_year(year + 1) == days_before_year(year) + days_before_month(year, 13),
{
    lemma_months(year);
    assert((year + 4) / 4 - (year + 3) / 4 == if year % 4 == 0 {
        1int
    } else {
        0
    });
    assert((year + 100) / 100 - (year + 99) / 100 == if year % 100 == 0 {
        1int
    } else {
        0
    });
    assert((year + 400) / 400 - (year + 399) / 400 == if year % 400 == 0 {
        1int
    } else {
        0
    });
    assert(year % 400 == 0 ==> year % 100 == 0);
    assert(year % 100 == 0 ==> year % 4 == 0);
}

} // verus!
