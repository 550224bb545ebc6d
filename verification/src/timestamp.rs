//! Calendar time: reading the clock, writing an instant as canonical UTC text
//! with nine fractional digits, and stepping such a text to the next instant.

use vstd::prelude::*;
use vstd::string::*;

use crate::error::{plain_error, AppError, ErrorCode};
use crate::text::{
    all_digits, digits_value, fixed_digits, is_digit, less_at, lemma_digits_value,
    lemma_fixed_digits, lemma_padded_is_fixed, padded, padded_decimal, pow10, text_before, text_less,
};

verus! {

/// Seconds and nanoseconds since 1970-01-01T00:00:00Z.
#[derive(Clone, Copy, Debug, PartialEq, Eq, Structural)]
pub struct UnixTime {
    pub seconds: u64,
    pub nanoseconds: u32,
}

/// A date and a time of day.
#[derive(Clone, Copy, Debug, PartialEq, Eq, Structural)]
pub struct Civil {
    pub year: u32,
    pub month: u32,
    pub day: u32,
    pub hour: u32,
    pub minute: u32,
    pub second: u32,
    pub nanosecond: u32,
}

/// Whether a year of the Gregorian calendar has a 29th of February.
pub open spec fn leap_year(year: int) -> bool {
    year % 400 == 0 || (year % 4 == 0 && year % 100 != 0)
}

/// The number of days in a month; none outside January to December.
pub open spec fn days_in_month(year: int, month: int) -> int {
    if month == 2 {
        if leap_year(year) {
            29
        } else {
            28
        }
    } else if month == 4 || month == 6 || month == 9 || month == 11 {
        30
    } else if 1 <= month <= 12 {
        31
    } else {
        0
    }
}

/// The days between 0000-01-01 and the first day of a year.
pub open spec fn days_before_year(year: int) -> int {
    365 * year + (year + 3) / 4 - (year + 99) / 100 + (year + 399) / 400
}

/// The days of a year before the first day of a month.
pub open spec fn days_before_month(year: int, month: int) -> int
    decreases month,
{
    if month <= 1 {
        0
    } else {
        days_before_month(year, month - 1) + days_in_month(year, month - 1)
    }
}

/// The days between 0000-01-01 and a date.
pub open spec fn day_number(year: int, month: int, day: int) -> int {
    days_before_year(year) + days_before_month(year, month) + day - 1
}

/// The day number of 1970-01-01.
pub open spec fn unix_epoch_day() -> int {
    719528
}

impl Civil {
    /// A date of the calendar and a time of day, in a year of four digits.
    pub open spec fn valid(self) -> bool {
        &&& self.year <= 9999
        &&& 1 <= self.month <= 12
        &&& 1 <= self.day <= days_in_month(self.year as int, self.month as int)
        &&& self.hour < 24
        &&& self.minute < 60
        &&& self.second < 60
        &&& self.nanosecond < 1_000_000_000
    }

    /// The seconds between the start of 0000-01-01 and this instant.
    pub open spec fn whole_seconds(self) -> int {
        ((day_number(self.year as int, self.month as int, self.day as int) * 24 + self.hour) * 60
            + self.minute) * 60 + self.second
    }

    /// The nanoseconds between the start of 0000-01-01 and this instant.
    pub open spec fn instant(self) -> int {
        self.whole_seconds() * 1_000_000_000 + self.nanosecond
    }

    /// How this instant is written.
    pub open spec fn text(self) -> Seq<char> {
        timestamp_text(
            self.year as nat,
            self.month as nat,
            self.day as nat,
            self.hour as nat,
            self.minute as nat,
            self.second as nat,
            self.nanosecond as nat,
        )
    }
}

/// How a date and a time of day are written: `YYYY-MM-DDThh:mm:ss.nnnnnnnnnZ`.
pub open spec fn timestamp_text(
    year: nat,
    month: nat,
    day: nat,
    hour: nat,
    minute: nat,
    second: nat,
    nanosecond: nat,
) -> Seq<char> {
    padded_decimal(year, 4) + seq!['-'] + padded_decimal(month, 2) + seq!['-'] + padded_decimal(
        day,
        2,
    ) + seq!['T'] + padded_decimal(hour, 2) + seq![':'] + padded_decimal(minute, 2) + seq![':']
        + padded_decimal(second, 2) + seq!['.'] + padded_decimal(nanosecond, 9) + seq!['Z']
}

/// A text is canonical when it is how some valid instant is written.
pub open spec fn canonical(text: Seq<char>) -> bool {
    exists|civil: Civil| #[trigger] civil.valid() && civil.text() == text
}

/// The instant that a canonical text stands for.
pub open spec fn civil_of(text: Seq<char>) -> Civil {
    choose|civil: Civil| #[trigger] civil.valid() && civil.text() == text
}

pub fn catalog_days_in_month(year: u32, month: u32) -> (days: u32)
    ensures
        days == days_in_month(year as int, month as int),
{
    match month {
        1 | 3 | 5 | 7 | 8 | 10 | 12 => 31,
        4 | 6 | 9 | 11 => 30,
        2 => if year % 400 == 0 || (year % 4 == 0 && year % 100 != 0) {
            29
        } else {
            28
        },
        _ => 0,
    }
}

/// The date that lies a number of days after 1970-01-01, or before it where
/// the number is negative; none where the number leaves the range of the
/// computation.
pub fn civil_from_days(days_since_unix_epoch: i64) -> (date: Option<(i64, u64, u64)>)
    ensures
        match date {
            Some((year, month, day)) => {
                &&& days_since_unix_epoch + 719_468 <= i64::MAX
                &&& 1 <= month <= 12
                &&& 1 <= day <= days_in_month(year as int, month as int)
                &&& day_number(year as int, month as int, day as int) == days_since_unix_epoch
                    + unix_epoch_day()
            },
            None => days_since_unix_epoch + 719_468 > i64::MAX,
        },
{
    let shifted: i64 = match days_since_unix_epoch.checked_add(719_468) {
        Some(shifted) => shifted,
        None => return None,
    };
    let day_of_era: i64 = if shifted >= 0 { shifted % 146_097 } else { 146_096 - (-(shifted + 1)) % 146_097 };
    let era: i64 = if shifted >= 0 { shifted / 146_097 } else { -(-(shifted + 1) / 146_097) - 1 };
    proof {
        assert(shifted == era * 146_097 + day_of_era && 0 <= day_of_era < 146_097);
    }
    let year_of_era: i64 = (day_of_era - day_of_era / 1_460 + day_of_era / 36_524 - day_of_era
        / 146_096) / 365;
    proof {
        lemma_year_of_era(day_of_era as int);
    }
    let march_year: i64 = year_of_era + era * 400;
    let day_of_year: i64 = day_of_era - (365 * year_of_era + year_of_era / 4 - year_of_era / 100);
    let month_prime: i64 = (5 * day_of_year + 2) / 153;
    let day: i64 = day_of_year - (153 * month_prime + 2) / 5 + 1;
    let month: i64 = if month_prime < 10 { month_prime + 3 } else { month_prime - 9 };
    let year: i64 = if month <= 2 { march_year + 1 } else { march_year };
    proof {
        lemma_march_year(era as int, year_of_era as int, day_of_year as int);
    }
    Some((year, month as u64, day as u64))
}

/// The year within a cycle of 400 years that starts on the first of March.
proof fn lemma_year_of_era(doe: int)
    requires
        0 <= doe < 146_097,
    ensures
        ({
            let yoe = (doe - doe / 1_460 + doe / 36_524 - doe / 146_096) / 365;
            let doy = doe - (365 * yoe + yoe / 4 - yoe / 100);
            &&& 0 <= yoe <= 399
            &&& 0 <= doy
            &&& doy <= 365
            &&& doy == 365 ==> leap_year(yoe + 1)
        }),
{
}

proof fn lemma_march_year(era: int, yoe: int, doy: int)
    requires
        0 <= yoe <= 399,
        0 <= doy <= 365,
        doy == 365 ==> leap_year(yoe + 1),
    ensures
        ({
            let mp = (5 * doy + 2) / 153;
            let day = doy - (153 * mp + 2) / 5 + 1;
            let month = if mp < 10 { mp + 3 } else { mp - 9 };
            let year = yoe + era * 400 + (if month <= 2 { 1int } else { 0 });
            &&& 1 <= month <= 12
            &&& 1 <= day <= days_in_month(year, month)
            &&& day_number(year, month, day) == era * 146_097 + 365 * yoe + yoe / 4 - yoe / 100
                + doy + 60
        }),
{
    let mp = (5 * doy + 2) / 153;
    let month = if mp < 10 { mp + 3 } else { mp - 9 };
    let year = yoe + era * 400 + (if month <= 2 { 1int } else { 0 });
    lemma_march_month(doy);
    lemma_months(year);
    lemma_days_before_year(era, yoe);
    lemma_days_before_year(era, yoe + 1);
    lemma_leap_cycle(era, yoe);
    lemma_leap_cycle(era, yoe + 1);
    lemma_march_first(yoe);
}

/// The days before each month of a year.
proof fn lemma_months(year: int)
    ensures
        days_before_month(year, 1) == 0,
        days_before_month(year, 2) == 31,
        days_before_month(year, 3) == 59 + (if leap_year(year) { 1int } else { 0 }),
        days_before_month(year, 4) == days_before_month(year, 3) + 31,
        days_before_month(year, 5) == days_before_month(year, 3) + 61,
        days_before_month(year, 6) == days_before_month(year, 3) + 92,
        days_before_month(year, 7) == days_before_month(year, 3) + 122,
        days_before_month(year, 8) == days_before_month(year, 3) + 153,
        days_before_month(year, 9) == days_before_month(year, 3) + 184,
        days_before_month(year, 10) == days_before_month(year, 3) + 214,
        days_before_month(year, 11) == days_before_month(year, 3) + 245,
        days_before_month(year, 12) == days_before_month(year, 3) + 275,
        days_before_month(year, 13) == days_before_month(year, 3) + 306,
{
    reveal_with_fuel(days_before_month, 13);
}

/// Counted from March, the months start at fixed days of the year.
proof fn lemma_march_month(doy: int)
    requires
        0 <= doy <= 365,
    ensures
        ({
            let mp = (5 * doy + 2) / 153;
            let start = (153 * mp + 2) / 5;
            &&& mp == 0 ==> start == 0 && doy <= 30
            &&& mp == 1 ==> start == 31 && 31 <= doy <= 60
            &&& mp == 2 ==> start == 61 && 61 <= doy <= 91
            &&& mp == 3 ==> start == 92 && 92 <= doy <= 121
            &&& mp == 4 ==> start == 122 && 122 <= doy <= 152
            &&& mp == 5 ==> start == 153 && 153 <= doy <= 183
            &&& mp == 6 ==> start == 184 && 184 <= doy <= 213
            &&& mp == 7 ==> start == 214 && 214 <= doy <= 244
            &&& mp == 8 ==> start == 245 && 245 <= doy <= 274
            &&& mp == 9 ==> start == 275 && 275 <= doy <= 305
            &&& mp == 10 ==> start == 306 && 306 <= doy <= 336
            &&& mp == 11 ==> start == 337 && 337 <= doy <= 365
            &&& 0 <= mp <= 11
        }),
{
}

/// The day number of the first of March, from the years before it.
proof fn lemma_march_first(yoe: int)
    requires
        0 <= yoe <= 399,
    ensures
        days_before_year(yoe) + (if leap_year(yoe) { 60int } else { 59 }) == 365 * yoe + yoe / 4
            - yoe / 100 + 60,
        days_before_year(yoe + 1) + 31 == 365 * yoe + yoe / 4 - yoe / 100 + 60 + 337,
        days_before_year(yoe + 1) == 365 * yoe + yoe / 4 - yoe / 100 + 60 + 306,
{
}

proof fn lemma_leap_cycle(era: int, year: int)
    ensures
        leap_year(era * 400 + year) == leap_year(year),
{
}

/// Each cycle of 400 years has the same number of days.
proof fn lemma_days_before_year(era: int, year: int)
    ensures
        days_before_year(era * 400 + year) == era * 146_097 + days_before_year(year),
{
    lemma_shifted_division(year + 3, 4, era * 100);
    lemma_shifted_division(year + 99, 100, era * 4);
    lemma_shifted_division(year + 399, 400, era);
}

/// A multiple of the divisor goes through a division.
proof fn lemma_shifted_division(value: int, divisor: int, times: int)
    requires
        divisor > 0,
    ensures
        (times * divisor + value) / divisor == times + value / divisor,
{
    vstd::arithmetic::div_mod::lemma_hoist_over_denominator(value, times, divisor as nat);
}

/// The number that the decimal digits at a place of a text stand for; none
/// where something else than a digit stands there.
fn digits_at(value: &str, start: usize, width: usize) -> (number: Option<u32>)
    requires
        value.is_ascii(),
        start + width <= value@.len(),
        start + width <= 30,
        width <= 9,
    ensures
        match number {
            Some(n) => all_digits(value@.subrange(start as int, start + width)) && n
                == digits_value(value@.subrange(start as int, start + width)),
            None => !all_digits(value@.subrange(start as int, start + width)),
        },
{
    let mut n: u32 = 0;
    let mut i: usize = 0;
    proof {
        reveal_with_fuel(pow10, 10);
    }
    while i < width
        invariant
            value.is_ascii(),
            i <= width,
            width <= 9,
            start + width <= 30,
            start + width <= value@.len(),
            all_digits(value@.subrange(start as int, start + i)),
            n == digits_value(value@.subrange(start as int, start + i)),
        decreases width - i,
    {
        let ghost before = value@.subrange(start as int, start + i);
        let ghost after = value@.subrange(start as int, start + i + 1);
        let byte: u8 = value.get_ascii(start + i);
        proof {
            assert((value@[start + i] as u32) < 128) by {
                assert(value.is_ascii());
            }
        }
        if byte < 48 || byte > 57 {
            proof {
                let whole = value@.subrange(start as int, start + width);
                assert(whole[i as int] == value@[start + i]);
                assert(!is_digit(whole[i as int]));
            }
            return None;
        }
        proof {
            assert(after.drop_last() =~= before);
            assert(after.last() == value@[start + i]);
            lemma_digits_value(before);
            lemma_pow10_bound(i as nat);
        }
        n = 10 * n + (byte - 48) as u32;
        i += 1;
    }
    Some(n)
}

proof fn lemma_pow10_bound(exponent: nat)
    requires
        exponent <= 8,
    ensures
        pow10(exponent) <= 100_000_000,
{
    reveal_with_fuel(pow10, 10);
}

/// Reads a canonical text.
pub fn parse_canonical(value: &str) -> (civil: Option<Civil>)
    ensures
        match civil {
            Some(c) => c.valid() && c.text() == value@,
            None => !canonical(value@),
        },
{
    let ghost text = value@;
    proof {
        if canonical(text) {
            lemma_text_layout(civil_of(text));
            lemma_field_widths(civil_of(text));
        }
    }
    if !value.is_ascii() {
        return None;
    }
    if value.unicode_len() != 30 {
        return None;
    }
    let separators_match = value.get_ascii(4) == 45 && value.get_ascii(7) == 45 && value.get_ascii(
        10,
    ) == 84 && value.get_ascii(13) == 58 && value.get_ascii(16) == 58 && value.get_ascii(19) == 46
        && value.get_ascii(29) == 90;
    if !separators_match {
        return None;
    }
    let year = match digits_at(value, 0, 4) {
        Some(number) => number,
        None => return None,
    };
    let month = match digits_at(value, 5, 2) {
        Some(number) => number,
        None => return None,
    };
    let day = match digits_at(value, 8, 2) {
        Some(number) => number,
        None => return None,
    };
    let hour = match digits_at(value, 11, 2) {
        Some(number) => number,
        None => return None,
    };
    let minute = match digits_at(value, 14, 2) {
        Some(number) => number,
        None => return None,
    };
    let second = match digits_at(value, 17, 2) {
        Some(number) => number,
        None => return None,
    };
    let nanosecond = match digits_at(value, 20, 9) {
        Some(number) => number,
        None => return None,
    };
    let civil = Civil { year, month, day, hour, minute, second, nanosecond };
    proof {
        lemma_digits_value(text.subrange(0, 4));
        lemma_digits_value(text.subrange(5, 7));
        lemma_digits_value(text.subrange(8, 10));
        lemma_digits_value(text.subrange(11, 13));
        lemma_digits_value(text.subrange(14, 16));
        lemma_digits_value(text.subrange(17, 19));
        lemma_digits_value(text.subrange(20, 29));
        assert('\0' <= text[4] <= '\u{7f}' && '\0' <= text[7] <= '\u{7f}' && '\0' <= text[10]
            <= '\u{7f}' && '\0' <= text[13] <= '\u{7f}' && '\0' <= text[16] <= '\u{7f}' && '\0'
            <= text[19] <= '\u{7f}' && '\0' <= text[29] <= '\u{7f}');
        reveal_with_fuel(pow10, 10);
        if canonical(text) {
            lemma_fields_are_read(civil_of(text), civil);
        }
    }
    if month < 1 || month > 12 || day < 1 || day > catalog_days_in_month(year, month) || hour > 23
        || minute > 59 || second > 59 {
        return None;
    }
    proof {
        lemma_layout_is_text(text, civil);
    }
    Some(civil)
}

/// Where the fields of a written instant stand.
pub open spec fn has_layout(text: Seq<char>, civil: Civil) -> bool {
    &&& text.len() == 30
    &&& text.subrange(0, 4) == fixed_digits(civil.year as nat, 4)
    &&& text[4] == '-'
    &&& text.subrange(5, 7) == fixed_digits(civil.month as nat, 2)
    &&& text[7] == '-'
    &&& text.subrange(8, 10) == fixed_digits(civil.day as nat, 2)
    &&& text[10] == 'T'
    &&& text.subrange(11, 13) == fixed_digits(civil.hour as nat, 2)
    &&& text[13] == ':'
    &&& text.subrange(14, 16) == fixed_digits(civil.minute as nat, 2)
    &&& text[16] == ':'
    &&& text.subrange(17, 19) == fixed_digits(civil.second as nat, 2)
    &&& text[19] == '.'
    &&& text.subrange(20, 29) == fixed_digits(civil.nanosecond as nat, 9)
    &&& text[29] == 'Z'
}

proof fn lemma_field_widths(civil: Civil)
    requires
        civil.valid(),
    ensures
        padded_decimal(civil.year as nat, 4) == fixed_digits(civil.year as nat, 4),
        padded_decimal(civil.month as nat, 2) == fixed_digits(civil.month as nat, 2),
        padded_decimal(civil.day as nat, 2) == fixed_digits(civil.day as nat, 2),
        padded_decimal(civil.hour as nat, 2) == fixed_digits(civil.hour as nat, 2),
        padded_decimal(civil.minute as nat, 2) == fixed_digits(civil.minute as nat, 2),
        padded_decimal(civil.second as nat, 2) == fixed_digits(civil.second as nat, 2),
        padded_decimal(civil.nanosecond as nat, 9) == fixed_digits(civil.nanosecond as nat, 9),
        fixed_digits(civil.year as nat, 4).len() == 4,
        fixed_digits(civil.month as nat, 2).len() == 2,
        fixed_digits(civil.day as nat, 2).len() == 2,
        fixed_digits(civil.hour as nat, 2).len() == 2,
        fixed_digits(civil.minute as nat, 2).len() == 2,
        fixed_digits(civil.second as nat, 2).len() == 2,
        fixed_digits(civil.nanosecond as nat, 9).len() == 9,
        digits_value(fixed_digits(civil.year as nat, 4)) == civil.year,
        digits_value(fixed_digits(civil.month as nat, 2)) == civil.month,
        digits_value(fixed_digits(civil.day as nat, 2)) == civil.day,
        digits_value(fixed_digits(civil.hour as nat, 2)) == civil.hour,
        digits_value(fixed_digits(civil.minute as nat, 2)) == civil.minute,
        digits_value(fixed_digits(civil.second as nat, 2)) == civil.second,
        digits_value(fixed_digits(civil.nanosecond as nat, 9)) == civil.nanosecond,
        all_digits(fixed_digits(civil.year as nat, 4)),
        all_digits(fixed_digits(civil.month as nat, 2)),
        all_digits(fixed_digits(civil.day as nat, 2)),
        all_digits(fixed_digits(civil.hour as nat, 2)),
        all_digits(fixed_digits(civil.minute as nat, 2)),
        all_digits(fixed_digits(civil.second as nat, 2)),
        all_digits(fixed_digits(civil.nanosecond as nat, 9)),
{
    assert(pow10(4) == 10_000 && pow10(2) == 100 && pow10(9) == 1_000_000_000) by {
        reveal_with_fuel(pow10, 10);
    }
    lemma_padded_is_fixed(civil.year as nat, 4);
    lemma_padded_is_fixed(civil.month as nat, 2);
    lemma_padded_is_fixed(civil.day as nat, 2);
    lemma_padded_is_fixed(civil.hour as nat, 2);
    lemma_padded_is_fixed(civil.minute as nat, 2);
    lemma_padded_is_fixed(civil.second as nat, 2);
    lemma_padded_is_fixed(civil.nanosecond as nat, 9);
    lemma_fixed_digits(civil.year as nat, 4);
    lemma_fixed_digits(civil.month as nat, 2);
    lemma_fixed_digits(civil.day as nat, 2);
    lemma_fixed_digits(civil.hour as nat, 2);
    lemma_fixed_digits(civil.minute as nat, 2);
    lemma_fixed_digits(civil.second as nat, 2);
    lemma_fixed_digits(civil.nanosecond as nat, 9);
}

proof fn lemma_text_layout(civil: Civil)
    requires
        civil.valid(),
    ensures
        has_layout(civil.text(), civil),
        vstd::utf8::is_ascii_chars(civil.text()),
{
    lemma_field_widths(civil);
    let text = civil.text();
    assert(text.subrange(0, 4) =~= fixed_digits(civil.year as nat, 4));
    assert(text.subrange(5, 7) =~= fixed_digits(civil.month as nat, 2));
    assert(text.subrange(8, 10) =~= fixed_digits(civil.day as nat, 2));
    assert(text.subrange(11, 13) =~= fixed_digits(civil.hour as nat, 2));
    assert(text.subrange(14, 16) =~= fixed_digits(civil.minute as nat, 2));
    assert(text.subrange(17, 19) =~= fixed_digits(civil.second as nat, 2));
    assert(text.subrange(20, 29) =~= fixed_digits(civil.nanosecond as nat, 9));
}

proof fn lemma_layout_is_text(text: Seq<char>, civil: Civil)
    requires
        civil.valid(),
        has_layout(text, civil),
    ensures
        text == civil.text(),
{
    lemma_field_widths(civil);
    lemma_text_layout(civil);
    let other = civil.text();
    assert forall|i: int| 0 <= i < 30 implies text[i] == other[i] by {
        if i < 4 {
            assert(text.subrange(0, 4)[i] == other.subrange(0, 4)[i]);
        } else if 5 <= i < 7 {
            assert(text.subrange(5, 7)[i - 5] == other.subrange(5, 7)[i - 5]);
        } else if 8 <= i < 10 {
            assert(text.subrange(8, 10)[i - 8] == other.subrange(8, 10)[i - 8]);
        } else if 11 <= i < 13 {
            assert(text.subrange(11, 13)[i - 11] == other.subrange(11, 13)[i - 11]);
        } else if 14 <= i < 16 {
            assert(text.subrange(14, 16)[i - 14] == other.subrange(14, 16)[i - 14]);
        } else if 17 <= i < 19 {
            assert(text.subrange(17, 19)[i - 17] == other.subrange(17, 19)[i - 17]);
        } else if 20 <= i < 29 {
            assert(text.subrange(20, 29)[i - 20] == other.subrange(20, 29)[i - 20]);
        }
    }
    assert(text =~= other);
}

/// What the digits of a written instant read as is the instant.
proof fn lemma_fields_are_read(written: Civil, read: Civil)
    requires
        written.valid(),
        ({
            let text = written.text();
            &&& read.year == digits_value(text.subrange(0, 4))
            &&& read.month == digits_value(text.subrange(5, 7))
            &&& read.day == digits_value(text.subrange(8, 10))
            &&& read.hour == digits_value(text.subrange(11, 13))
            &&& read.minute == digits_value(text.subrange(14, 16))
            &&& read.second == digits_value(text.subrange(17, 19))
            &&& read.nanosecond == digits_value(text.subrange(20, 29))
        }),
    ensures
        read == written,
{
    lemma_field_widths(written);
    lemma_text_layout(written);
}

/// No two instants are written alike.
pub proof fn lemma_text_is_unique(a: Civil, b: Civil)
    requires
        a.valid(),
        b.valid(),
        a.text() == b.text(),
    ensures
        a == b,
{
    lemma_field_widths(a);
    lemma_field_widths(b);
    lemma_text_layout(a);
    lemma_text_layout(b);
}

/// Writes a date and a time of day.
fn write_timestamp(
    year: u64,
    month: u64,
    day: u64,
    hour: u64,
    minute: u64,
    second: u64,
    nanosecond: u64,
) -> (text: String)
    ensures
        text@ == timestamp_text(
            year as nat,
            month as nat,
            day as nat,
            hour as nat,
            minute as nat,
            second as nat,
            nanosecond as nat,
        ),
{
    proof {
        reveal_strlit("-");
        reveal_strlit("T");
        reveal_strlit(":");
        reveal_strlit(".");
        reveal_strlit("Z");
        assert("-"@ =~= seq!['-']);
        assert("T"@ =~= seq!['T']);
        assert(":"@ =~= seq![':']);
        assert("."@ =~= seq!['.']);
        assert("Z"@ =~= seq!['Z']);
    }
    let mut text = padded(year, 4);
    text.append("-");
    text.append(padded(month, 2).as_str());
    text.append("-");
    text.append(padded(day, 2).as_str());
    text.append("T");
    text.append(padded(hour, 2).as_str());
    text.append(":");
    text.append(padded(minute, 2).as_str());
    text.append(":");
    text.append(padded(second, 2).as_str());
    text.append(".");
    text.append(padded(nanosecond, 9).as_str());
    text.append("Z");
    text
}

/// The last instant that a canonical text can stand for.
pub open spec fn last_instant() -> Civil {
    Civil {
        year: 9999,
        month: 12,
        day: 31,
        hour: 23,
        minute: 59,
        second: 59,
        nanosecond: 999_999_999,
    }
}

/// The instant one nanosecond later; none after the last one.
fn step(civil: Civil) -> (next: Option<Civil>)
    requires
        civil.valid(),
    ensures
        match next {
            Some(later) => later.valid() && later.instant() == civil.instant() + 1,
            None => civil == last_instant(),
        },
        civil == last_instant() ==> next is None,
{
    let mut later = civil;
    if civil.nanosecond < 999_999_999 {
        later.nanosecond = civil.nanosecond + 1;
        return Some(later);
    }
    later.nanosecond = 0;
    if civil.second < 59 {
        later.second = civil.second + 1;
        return Some(later);
    }
    later.second = 0;
    if civil.minute < 59 {
        later.minute = civil.minute + 1;
        return Some(later);
    }
    later.minute = 0;
    if civil.hour < 23 {
        later.hour = civil.hour + 1;
        return Some(later);
    }
    later.hour = 0;
    if civil.day < catalog_days_in_month(civil.year, civil.month) {
        later.day = civil.day + 1;
        return Some(later);
    }
    later.day = 1;
    proof {
        lemma_months(civil.year as int);
        lemma_next_year(civil.year as int);
    }
    if civil.month < 12 {
        later.month = civil.month + 1;
        return Some(later);
    }
    later.month = 1;
    if civil.year < 9999 {
        later.year = civil.year + 1;
        proof {
            lemma_months(civil.year + 1);
        }
        return Some(later);
    }
    None
}

pub(crate) proof fn lemma_next_year(year: int)
    ensures
        days_before_year(year + 1) == days_before_year(year) + days_before_month(year, 13),
{
    lemma_months(year);
    let fourth = if year % 4 == 0 { 1int } else { 0 };
    let century = if year % 100 == 0 { 1int } else { 0 };
    let era = if year % 400 == 0 { 1int } else { 0 };
    assert((year + 4) / 4 == (year + 3) / 4 + fourth);
    assert((year + 100) / 100 == (year + 99) / 100 + century);
    assert((year + 400) / 400 == (year + 399) / 400 + era);
    assert(year % 400 == 0 ==> year % 100 == 0);
    assert(year % 100 == 0 ==> year % 4 == 0);
}

/// The canonical text of the instant one nanosecond after the one that a
/// canonical text stands for.
pub fn advance_canonical_timestamp_one_nanosecond(value: &str) -> (result: Result<
    String,
    AppError,
>)
    requires
        canonical(value@),
    ensures
        match result {
            Ok(text) => canonical(text@) && civil_of(text@).instant() == civil_of(value@).instant()
                + 1,
            Err(error) => error@ == plain_error(
                ErrorCode::PlatformError,
                "catalog timestamp exceeds the supported range"@,
            ),
        },
        result is Err <==> civil_of(value@) == last_instant(),
{
    let civil = match parse_canonical(value) {
        Some(civil) => civil,
        None => {
            return Err(
                AppError::new(
                    ErrorCode::PlatformError,
                    "catalog timestamp exceeds the supported range",
                ),
            );
        },
    };
    proof {
        lemma_text_is_unique(civil, civil_of(value@));
    }
    match step(civil) {
        Some(later) => {
            let text = write_timestamp(
                later.year as u64,
                later.month as u64,
                later.day as u64,
                later.hour as u64,
                later.minute as u64,
                later.second as u64,
                later.nanosecond as u64,
            );
            proof {
                assert(later.valid() && later.text() == text@);
                lemma_text_is_unique(later, civil_of(text@));
            }
            Ok(text)
        },
        None => Err(
            AppError::new(
                ErrorCode::PlatformError,
                "catalog timestamp exceeds the supported range",
            ),
        ),
    }
}

/// Days of earlier years come before days of later years.
proof fn lemma_years_order(a: int, b: int)
    requires
        a <= b,
    ensures
        days_before_year(a) <= days_before_year(b),
    decreases b - a,
{
    if a < b {
        lemma_years_order(a, b - 1);
        lemma_next_year(b - 1);
        lemma_months(b - 1);
    }
}

/// The day number of a date lies within its month and its year.
proof fn lemma_day_bounds(civil: Civil)
    requires
        civil.valid(),
    ensures
        ({
            let year = civil.year as int;
            let month = civil.month as int;
            let day = day_number(year, month, civil.day as int);
            &&& days_before_year(year) + days_before_month(year, month) <= day
            &&& day < days_before_year(year) + days_before_month(year, month + 1)
            &&& days_before_month(year, month + 1) <= days_before_month(year, 13)
            &&& 0 <= days_before_month(year, month)
        }),
{
    lemma_months(civil.year as int);
}

/// The earlier of two instants has the smaller of the first fields that differ.
pub open spec fn fields_less(a: Civil, b: Civil) -> bool {
    a.year < b.year || (a.year == b.year && (a.month < b.month || (a.month == b.month && (a.day
        < b.day || (a.day == b.day && (a.hour < b.hour || (a.hour == b.hour && (a.minute < b.minute
        || (a.minute == b.minute && (a.second < b.second || (a.second == b.second && a.nanosecond
        < b.nanosecond)))))))))))
}

proof fn lemma_instants_order(a: Civil, b: Civil)
    requires
        a.valid(),
        b.valid(),
        a.instant() < b.instant(),
    ensures
        fields_less(a, b),
{
    lemma_day_bounds(a);
    lemma_day_bounds(b);
    lemma_months(a.year as int);
    if a.year > b.year {
        lemma_years_order(b.year + 1, a.year as int);
        lemma_next_year(b.year as int);
    }
}

proof fn lemma_months_rise(year: int, first: int, second: int)
    requires
        first <= second,
    ensures
        days_before_month(year, first) <= days_before_month(year, second),
    decreases second - first,
{
    if first < second {
        lemma_months_rise(year, first, second - 1);
    }
}

/// One day has one date.
proof fn lemma_day_has_one_date(a: Civil, b: Civil)
    requires
        a.valid(),
        b.valid(),
        day_number(a.year as int, a.month as int, a.day as int) == day_number(
            b.year as int,
            b.month as int,
            b.day as int,
        ),
    ensures
        a.year == b.year && a.month == b.month && a.day == b.day,
{
    lemma_day_bounds(a);
    lemma_day_bounds(b);
    if a.year > b.year {
        lemma_years_order(b.year + 1, a.year as int);
        lemma_next_year(b.year as int);
    } else if b.year > a.year {
        lemma_years_order(a.year + 1, b.year as int);
        lemma_next_year(a.year as int);
    } else if a.month > b.month {
        lemma_months_rise(a.year as int, b.month + 1, a.month as int);
    } else if b.month > a.month {
        lemma_months_rise(a.year as int, a.month + 1, b.month as int);
    }
}

/// One instant has one date and one time of day.
pub(crate) proof fn lemma_instants_are_apart(a: Civil, b: Civil)
    requires
        a.valid(),
        b.valid(),
        a.instant() == b.instant(),
    ensures
        a == b,
{
    let x = day_number(a.year as int, a.month as int, a.day as int);
    let y = day_number(b.year as int, b.month as int, b.day as int);
    assert(a.nanosecond == b.nanosecond && a.whole_seconds() == b.whole_seconds());
    assert(a.second == b.second && (x * 24 + a.hour) * 60 + a.minute == (y * 24 + b.hour) * 60
        + b.minute);
    assert(a.minute == b.minute && x * 24 + a.hour == y * 24 + b.hour);
    assert(a.hour == b.hour && x == y);
    lemma_day_has_one_date(a, b);
}

/// Of two different numbers of the same width the smaller one is written with
/// the smaller digit where they first differ.
proof fn lemma_fixed_less(a: nat, b: nat, width: nat) -> (place: int)
    requires
        a < b < pow10(width),
    ensures
        0 <= place < width,
        fixed_digits(a, width).len() == width,
        fixed_digits(b, width).len() == width,
        forall|i: int|
            0 <= i < place ==> fixed_digits(a, width)[i] == fixed_digits(b, width)[i],
        fixed_digits(a, width)[place] < fixed_digits(b, width)[place],
    decreases width,
{
    lemma_fixed_digits(a, width);
    lemma_fixed_digits(b, width);
    let rest = (width - 1) as nat;
    lemma_fixed_digits(a / 10, rest);
    lemma_fixed_digits(b / 10, rest);
    if a / 10 < b / 10 {
        assert(b / 10 < pow10(rest));
        lemma_fixed_less(a / 10, b / 10, rest)
    } else {
        assert(a / 10 == b / 10);
        assert(a % 10 < b % 10);
        width - 1
    }
}

/// Instants that agree in the fields before a place are written alike there.
proof fn lemma_same_start(a: Civil, b: Civil, i: int)
    requires
        a.valid(),
        b.valid(),
        0 <= i < 30,
        i >= 4 ==> a.year == b.year,
        i >= 7 ==> a.month == b.month,
        i >= 10 ==> a.day == b.day,
        i >= 13 ==> a.hour == b.hour,
        i >= 16 ==> a.minute == b.minute,
        i >= 19 ==> a.second == b.second,
        i < 4 ==> a.year == b.year,
        5 <= i < 7 ==> a.month == b.month,
        8 <= i < 10 ==> a.day == b.day,
        11 <= i < 13 ==> a.hour == b.hour,
        14 <= i < 16 ==> a.minute == b.minute,
        17 <= i < 19 ==> a.second == b.second,
        20 <= i < 29 ==> a.nanosecond == b.nanosecond,
    ensures
        a.text()[i] == b.text()[i],
{
    lemma_text_layout(a);
    lemma_text_layout(b);
    let x = a.text();
    let y = b.text();
    if i < 4 {
        assert(x.subrange(0, 4)[i] == y.subrange(0, 4)[i]);
    } else if 5 <= i < 7 {
        assert(x.subrange(5, 7)[i - 5] == y.subrange(5, 7)[i - 5]);
    } else if 8 <= i < 10 {
        assert(x.subrange(8, 10)[i - 8] == y.subrange(8, 10)[i - 8]);
    } else if 11 <= i < 13 {
        assert(x.subrange(11, 13)[i - 11] == y.subrange(11, 13)[i - 11]);
    } else if 14 <= i < 16 {
        assert(x.subrange(14, 16)[i - 14] == y.subrange(14, 16)[i - 14]);
    } else if 17 <= i < 19 {
        assert(x.subrange(17, 19)[i - 17] == y.subrange(17, 19)[i - 17]);
    } else if 20 <= i < 29 {
        assert(x.subrange(20, 29)[i - 20] == y.subrange(20, 29)[i - 20]);
    }
}

/// The later of two instants is the one whose canonical text stands later in
/// the order of strings.
pub proof fn lemma_later_sorts_later(a: Civil, b: Civil)
    requires
        a.valid(),
        b.valid(),
        a.instant() < b.instant(),
    ensures
        text_before(a.text(), b.text()),
{
    lemma_instants_order(a, b);
    lemma_text_layout(a);
    lemma_text_layout(b);
    vstd::utf8::is_ascii_chars_encode_utf8(a.text());
    vstd::utf8::is_ascii_chars_encode_utf8(b.text());
    assert(pow10(4) == 10_000 && pow10(2) == 100 && pow10(9) == 1_000_000_000) by {
        reveal_with_fuel(pow10, 10);
    }
    let x = a.text();
    let y = b.text();
    let place: int = if a.year < b.year {
        let j = lemma_fixed_less(a.year as nat, b.year as nat, 4);
        assert forall|i: int| 0 <= i < j implies x[i] == y[i] by {
            assert(x.subrange(0, 4)[i] == y.subrange(0, 4)[i]);
        }
        assert(x.subrange(0, 4)[j] == x[j] && y.subrange(0, 4)[j] == y[j]);
        j
    } else if a.month < b.month {
        let j = lemma_fixed_less(a.month as nat, b.month as nat, 2);
        lemma_field_less(a, b, 5, 7, j);
        5 + j
    } else if a.day < b.day {
        let j = lemma_fixed_less(a.day as nat, b.day as nat, 2);
        lemma_field_less(a, b, 8, 10, j);
        8 + j
    } else if a.hour < b.hour {
        let j = lemma_fixed_less(a.hour as nat, b.hour as nat, 2);
        lemma_field_less(a, b, 11, 13, j);
        11 + j
    } else if a.minute < b.minute {
        let j = lemma_fixed_less(a.minute as nat, b.minute as nat, 2);
        lemma_field_less(a, b, 14, 16, j);
        14 + j
    } else if a.second < b.second {
        let j = lemma_fixed_less(a.second as nat, b.second as nat, 2);
        lemma_field_less(a, b, 17, 19, j);
        17 + j
    } else {
        let j = lemma_fixed_less(a.nanosecond as nat, b.nanosecond as nat, 9);
        lemma_field_less(a, b, 20, 29, j);
        20 + j
    };
    let p = vstd::utf8::encode_utf8(x);
    let q = vstd::utf8::encode_utf8(y);
    assert forall|i: int| 0 <= i < place implies p[i] == q[i] by {
        assert(x[i] == y[i]);
    }
    assert(p.subrange(0, place) =~= q.subrange(0, place));
    assert('\0' <= x[place] <= '\u{7f}' && '\0' <= y[place] <= '\u{7f}');
    assert(less_at(p, q, place));
}

proof fn lemma_field_less(a: Civil, b: Civil, start: int, end: int, j: int)
    requires
        a.valid(),
        b.valid(),
        (start == 5 && end == 7) || (start == 8 && end == 10) || (start == 11 && end == 13) || (
        start == 14 && end == 16) || (start == 17 && end == 19) || (start == 20 && end == 29),
        a.year == b.year,
        start > 5 ==> a.month == b.month,
        start > 8 ==> a.day == b.day,
        start > 11 ==> a.hour == b.hour,
        start > 14 ==> a.minute == b.minute,
        start > 17 ==> a.second == b.second,
        0 <= j < end - start,
        forall|i: int|
            0 <= i < j ==> a.text().subrange(start, end)[i] == b.text().subrange(start, end)[i],
        a.text().subrange(start, end)[j] < b.text().subrange(start, end)[j],
    ensures
        forall|i: int| 0 <= i < start + j ==> a.text()[i] == b.text()[i],
        a.text()[start + j] < b.text()[start + j],
{
    lemma_text_layout(a);
    lemma_text_layout(b);
    let x = a.text();
    let y = b.text();
    assert forall|i: int| 0 <= i < start + j implies x[i] == y[i] by {
        if i < start {
            lemma_same_start(a, b, i);
        } else {
            assert(x.subrange(start, end)[i - start] == y.subrange(start, end)[i - start]);
        }
    }
}

/// Whether a text is how the moment a number of seconds and nanoseconds after
/// the start of 1970 is written.
pub open spec fn written_at(text: Seq<char>, time: UnixTime) -> bool {
    exists|year: int, month: int, day: int|
        #![trigger day_number(year, month, day)]
        {
            &&& 1 <= month <= 12
            &&& 1 <= day <= days_in_month(year, month)
            &&& day_number(year, month, day) == time.seconds / 86_400 + unix_epoch_day()
            &&& text == timestamp_text(
                year as nat,
                month as nat,
                day as nat,
                ((time.seconds % 86_400) / 3_600) as nat,
                ((time.seconds % 86_400) % 3_600 / 60) as nat,
                ((time.seconds % 86_400) % 60) as nat,
                time.nanoseconds as nat,
            )
        }
}

/// The first second after the year 9999, counted from the start of 1970.
pub const FIRST_UNWRITABLE_SECOND: u64 = 253_402_300_800;

/// The text of a clock reading; none stands for a clock before 1970.
pub fn timestamp_for_system_time(since_epoch: Option<UnixTime>) -> (result: Result<
    String,
    AppError,
>)
    ensures
        match since_epoch {
            Some(time) => {
                &&& result is Ok
                &&& written_at(result->Ok_0@, time)
                &&& time.seconds < FIRST_UNWRITABLE_SECOND && time.nanoseconds < 1_000_000_000 ==> {
                    &&& canonical(result->Ok_0@)
                    &&& civil_of(result->Ok_0@).instant() == (unix_epoch_day() * 86_400
                        + time.seconds) * 1_000_000_000 + time.nanoseconds
                }
            },
            None => result is Err && result->Err_0@ == plain_error(
                ErrorCode::PlatformError,
                "system clock is before Unix epoch"@,
            ),
        },
{
    let time = match since_epoch {
        Some(time) => time,
        None => {
            return Err(
                AppError::new(ErrorCode::PlatformError, "system clock is before Unix epoch"),
            );
        },
    };
    let days: i64 = (time.seconds / 86_400) as i64;
    let seconds_of_day: u64 = time.seconds % 86_400;
    match civil_from_days(days) {
        Some((year, month, day)) => {
            proof {
                lemma_year_is_positive(year as int, month as int, day as int);
            }
            let text = write_timestamp(
                year as u64,
                month,
                day,
                seconds_of_day / 3_600,
                seconds_of_day % 3_600 / 60,
                seconds_of_day % 60,
                time.nanoseconds as u64,
            );
            proof {
                assert(day_number(year as int, month as int, day as int) == time.seconds / 86_400
                    + unix_epoch_day());
                if time.seconds < FIRST_UNWRITABLE_SECOND && time.nanoseconds < 1_000_000_000 {
                    lemma_year_bound(year as int, month as int, day as int);
                    let civil = Civil {
                        year: year as u32,
                        month: month as u32,
                        day: day as u32,
                        hour: (seconds_of_day / 3_600) as u32,
                        minute: (seconds_of_day % 3_600 / 60) as u32,
                        second: (seconds_of_day % 60) as u32,
                        nanosecond: time.nanoseconds,
                    };
                    assert(civil.valid());
                    assert(civil.text() == text@);
                    lemma_text_is_unique(civil, civil_of(text@));
                }
            }
            Ok(text)
        },
        None => Err(
            AppError::new(
                ErrorCode::PlatformError,
                "system clock exceeds the supported timestamp range",
            ),
        ),
    }
}

proof fn lemma_year_is_positive(year: int, month: int, day: int)
    requires
        1 <= month <= 12,
        1 <= day <= days_in_month(year, month),
        day_number(year, month, day) >= unix_epoch_day(),
    ensures
        year >= 1970,
{
    lemma_months(year);
    if year < 1970 {
        lemma_next_year(year);
        lemma_years_order(year + 1, 1970);
    }
}

proof fn lemma_year_bound(year: int, month: int, day: int)
    requires
        1 <= month <= 12,
        1 <= day <= days_in_month(year, month),
        day_number(year, month, day) < unix_epoch_day() + 2_932_897,
    ensures
        year <= 9999,
{
    lemma_months(year);
    if year > 9999 {
        lemma_years_order(10_000, year);
    }
}

/// A reading of the machine's clock. Nothing is known of what is inside.
#[verifier::external_type_specification]
#[verifier::external_body]
pub struct ExSystemTime(std::time::SystemTime);

/// Calls `std::time::SystemTime::now`. Nothing is claimed of the reading: it
/// depends on the machine.
#[verifier::external_body]
fn clock_reading() -> (reading: std::time::SystemTime) {
    std::time::SystemTime::now()
}

/// Calls `std::time::SystemTime::duration_since` with `std::time::UNIX_EPOCH`, and
/// gives the duration in whole seconds and the nanoseconds behind them; none
/// where the reading stands before that. Only this is claimed: the nanoseconds
/// are less than a second.
#[verifier::external_body]
fn since_epoch(reading: std::time::SystemTime) -> (time: Option<UnixTime>)
    ensures
        match time {
            Some(time) => time.nanoseconds < 1_000_000_000,
            None => true,
        },
{
    match reading.duration_since(std::time::UNIX_EPOCH) {
        Ok(duration) => Some(
            UnixTime { seconds: duration.as_secs(), nanoseconds: duration.subsec_nanos() },
        ),
        Err(_) => None,
    }
}

/// Reads the machine's clock, as the time since 1970; none where the clock stands
/// before that.
pub(crate) fn read_clock() -> (time: Option<UnixTime>)
    ensures
        match time {
            Some(time) => time.nanoseconds < 1_000_000_000,
            None => true,
        },
{
    since_epoch(clock_reading())
}

/// The text of the machine's clock.
pub fn current_timestamp() -> (result: Result<String, AppError>)
    ensures
        match result {
            Ok(text) => exists|time: UnixTime|
                time.nanoseconds < 1_000_000_000 && #[trigger] written_at(text@, time),
            Err(error) => error@ == plain_error(
                ErrorCode::PlatformError,
                "system clock is before Unix epoch"@,
            ),
        },
{
    let time = read_clock();
    timestamp_for_system_time(time)
}

/// What a reading of the clock makes of the timestamp that an entity carries:
/// the reading where it is later, and otherwise the very next instant.
pub fn timestamp_after(previous: Option<&str>, now: Result<String, AppError>) -> (result: Result<
    String,
    AppError,
>)
    ensures
        match previous {
            None => result == now,
            Some(previous) => if !canonical(previous@) {
                result is Err && result->Err_0@ == invalid_previous_timestamp()
            } else if now is Ok && text_before(previous@, now->Ok_0@) {
                result == now
            } else {
                match result {
                    Ok(text) => canonical(text@) && civil_of(text@).instant() == civil_of(
                        previous@,
                    ).instant() + 1,
                    Err(error) => civil_of(previous@) == last_instant() && error@ == plain_error(
                        ErrorCode::PlatformError,
                        "catalog timestamp exceeds the supported range"@,
                    ),
                }
            },
        },
        previous is Some && result is Ok ==> text_before(previous->0@, result->Ok_0@),
{
    let previous = match previous {
        Some(previous) => previous,
        None => return now,
    };
    if parse_canonical(previous).is_none() {
        return Err(
            AppError::new(
                ErrorCode::InvalidArgument,
                "timestamp is not a canonical UTC timestamp",
            ).with_detail("field", "previousUpdatedAt"),
        );
    }
    if let Ok(timestamp) = &now {
        if text_less(previous, timestamp.as_str()) {
            return now;
        }
    }
    let next = advance_canonical_timestamp_one_nanosecond(previous);
    proof {
        if next is Ok {
            lemma_later_sorts_later(civil_of(previous@), civil_of(next->Ok_0@));
        }
    }
    next
}

/// The answer where an entity carries a timestamp that is not canonical.
pub open spec fn invalid_previous_timestamp() -> crate::error::ErrorView {
    plain_error(
        ErrorCode::InvalidArgument,
        "timestamp is not a canonical UTC timestamp"@,
    ).with("field"@, "previousUpdatedAt"@)
}

/// A timestamp is the very next after another.
pub open spec fn is_instant_after(previous: Seq<char>, text: Seq<char>) -> bool {
    canonical(text) && civil_of(text).instant() == civil_of(previous).instant() + 1
}

/// The timestamp for a change made now to an entity that carries a timestamp:
/// the clock's where that is later, and otherwise the very next instant.
pub fn next_canonical_timestamp(previous: Option<&str>) -> (result: Result<String, AppError>)
    ensures
        match previous {
            Some(previous) => {
                &&& !canonical(previous@) ==> result is Err && result->Err_0@
                    == invalid_previous_timestamp()
                &&& canonical(previous@) ==> match result {
                    Ok(text) => text_before(previous@, text@) && (is_instant_after(
                        previous@,
                        text@,
                    ) || exists|time: UnixTime|
                        time.nanoseconds < 1_000_000_000 && #[trigger] written_at(text@, time)),
                    Err(error) => civil_of(previous@) == last_instant() && error@ == plain_error(
                        ErrorCode::PlatformError,
                        "catalog timestamp exceeds the supported range"@,
                    ),
                }
            },
            None => match result {
                Ok(text) => exists|time: UnixTime|
                    time.nanoseconds < 1_000_000_000 && #[trigger] written_at(text@, time),
                Err(error) => error@ == plain_error(
                    ErrorCode::PlatformError,
                    "system clock is before Unix epoch"@,
                ),
            },
        },
{
    let now = current_timestamp();
    timestamp_after(previous, now)
}

} // verus!
