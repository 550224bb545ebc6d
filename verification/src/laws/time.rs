//! What times are for: a change is always behind the one before it, a time that was written
//! is read as it was, and the order of the texts is the order of the times.

use vstd::prelude::*;

use crate::error::{AppError, ErrorCode};
use crate::text::{lemma_text_order_is_total, text_before};
use crate::timestamp::{
    advance_canonical_timestamp_one_nanosecond, canonical, catalog_days_in_month, civil_of,
    days_before_month, days_before_year, lemma_later_sorts_later, lemma_next_year,
    lemma_text_is_unique, parse_canonical, timestamp_after, timestamp_for_system_time, Civil,
    UnixTime,
};

verus! {

/// A month has the days that it has: thirty for four of them, and for February 28, or 29
/// where the year is divided by four and not by a hundred, or by four hundred.
pub proof fn lemma_month_has_its_days(year: u32, month: u32, days: u32)
    requires
        call_ensures(catalog_days_in_month, (year, month), days),
    ensures
        days == 30 <==> month == 4 || month == 6 || month == 9 || month == 11,
        days == 29 <==> month == 2 && (year % 400 == 0 || (year % 4 == 0 && year % 100 != 0)),
        days == 28 <==> month == 2 && !(year % 400 == 0 || (year % 4 == 0 && year % 100 != 0)),
        days == 31 <==> month == 1 || month == 3 || month == 5 || month == 7 || month == 8 || month
            == 10 || month == 12,
        days == 0 <==> month == 0 || month > 12,
{
}

/// A year has as many days as its twelve months.
pub proof fn lemma_year_has_the_days_of_its_months(year: int)
    ensures
        days_before_year(year + 1) - days_before_year(year) == days_before_month(year, 13),
{
    lemma_next_year(year);
}

/// A text is read as a time exactly where it was written for one, and as that one.
pub proof fn lemma_time_is_read_as_it_was_written(
    value: &str,
    read: Option<Civil>,
    civil: Civil,
)
    requires
        call_ensures(parse_canonical, (value,), read),
        civil.valid(),
    ensures
        value@ == civil.text() ==> read == Some(civil),
        read is Some ==> read->0.text() == value@ && read->0.valid(),
{
    if value@ == civil.text() {
        assert(canonical(value@));
        if let Some(c) = read {
            lemma_text_is_unique(c, civil);
        }
    }
}

proof fn lemma_order_of_instants(a: Seq<char>, b: Seq<char>)
    requires
        canonical(a),
        canonical(b),
    ensures
        text_before(a, b) <==> civil_of(a).instant() < civil_of(b).instant(),
        a == b ==> civil_of(a).instant() == civil_of(b).instant(),
        civil_of(a).instant() == civil_of(b).instant() ==> !text_before(a, b),
{
    let x = civil_of(a);
    let y = civil_of(b);
    assert(x.valid() && x.text() == a && y.valid() && y.text() == b);
    lemma_text_order_is_total(a, b);
    if x.instant() < y.instant() {
        lemma_later_sorts_later(x, y);
    } else if y.instant() < x.instant() {
        lemma_later_sorts_later(y, x);
    } else if text_before(a, b) {
        crate::timestamp::lemma_instants_are_apart(x, y);
    }
}

/// The next time is behind the one before it, and no time lies between them; only the last
/// time of all has none behind it.
pub proof fn lemma_no_time_lies_between(
    value: &str,
    result: Result<String, AppError>,
    other: Seq<char>,
)
    requires
        canonical(value@),
        canonical(other),
        call_ensures(advance_canonical_timestamp_one_nanosecond, (value,), result),
    ensures
        result is Ok ==> text_before(value@, result->Ok_0@),
        result is Ok ==> !(text_before(value@, other) && text_before(other, result->Ok_0@)),
        result matches Err(error) ==> error.code == ErrorCode::PlatformError,
{
    if let Ok(text) = result {
        lemma_order_of_instants(value@, text@);
        lemma_order_of_instants(value@, other);
        lemma_order_of_instants(other, text@);
    }
    if let Err(error) = result {
        assert(error@.code == error.code);
    }
}

/// A change is given the time of the clock where that is behind the change before it, and
/// otherwise the very next time; what is stored in another form is refused, and nothing
/// else is while there is a time left.
pub proof fn lemma_change_is_behind_the_one_before(
    previous: Option<&str>,
    now: Result<String, AppError>,
    result: Result<String, AppError>,
    other: Seq<char>,
)
    requires
        call_ensures(timestamp_after, (previous, now), result),
        canonical(other),
    ensures
        previous is None ==> result == now,
        previous matches Some(previous) ==> {
            &&& result is Ok ==> text_before(previous@, result->Ok_0@)
            &&& !canonical(previous@) ==> result is Err && result->Err_0.code
                == ErrorCode::InvalidArgument
            &&& canonical(previous@) && now is Ok && text_before(previous@, now->Ok_0@) ==> result
                == now
            &&& canonical(previous@) && result is Ok && result != now ==> !(text_before(
                previous@,
                other,
            ) && text_before(other, result->Ok_0@))
            &&& canonical(previous@) && result is Err ==> result->Err_0.code
                == ErrorCode::PlatformError
        },
{
    if let Some(previous) = previous {
        if let Err(error) = result {
            assert(error@.code == error.code);
        }
        if canonical(previous@) && result is Ok && result != now {
            lemma_order_of_instants(previous@, result->Ok_0@);
            lemma_order_of_instants(previous@, other);
            lemma_order_of_instants(other, result->Ok_0@);
        }
    }
}

/// Of two readings of the clock the later one is written as the later text, as long as the
/// year has four digits.
pub proof fn lemma_later_reading_is_written_later(
    first: UnixTime,
    second: UnixTime,
    one: Result<String, AppError>,
    two: Result<String, AppError>,
)
    requires
        call_ensures(timestamp_for_system_time, (Some(first),), one),
        call_ensures(timestamp_for_system_time, (Some(second),), two),
        first.nanoseconds < 1_000_000_000,
        second.nanoseconds < 1_000_000_000,
        first.seconds < 253_402_300_800,
        second.seconds < 253_402_300_800,
    ensures
        one is Ok && two is Ok,
        first.seconds < second.seconds || (first.seconds == second.seconds && first.nanoseconds
            < second.nanoseconds) ==> text_before(one->Ok_0@, two->Ok_0@),
        canonical(one->Ok_0@),
{
    lemma_order_of_instants(one->Ok_0@, two->Ok_0@);
}

} // verus!
