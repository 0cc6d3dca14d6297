//! Points in time.

use crate::text::digit_char;
use vstd::prelude::*;

verus! {

/// A point in time: seconds since the Unix epoch, and nanoseconds behind them,
/// which run on in a leap second.
#[derive(Debug, Clone, Copy, PartialEq, Eq, Structural)]
pub struct Timestamp {
    pub seconds: i64,
    pub nanos: u32,
}

impl Timestamp {
    /// Whether `chrono` can tell the time: it knows the years from -262143 to
    /// 262142, and a leap second at the end of any minute.
    pub open spec fn valid(self) -> bool {
        &&& -8334601228800 <= self.seconds <= 8210266876799
        &&& self.nanos < 2000000000
        &&& self.nanos >= 1000000000 ==> self.seconds % 60 == 59
    }

    /// Whether the time does not come after another one.
    pub open spec fn not_after(self, other: Timestamp) -> bool {
        self.seconds < other.seconds || self.seconds == other.seconds && self.nanos <= other.nanos
    }

    /// Whether the time can be told.
    pub fn is_valid(&self) -> (valid: bool)
        ensures
            valid == self.valid(),
    {
        if self.seconds < -8334601228800 || self.seconds > 8210266876799 || self.nanos
            >= 2000000000 {
            return false;
        }
        if self.nanos < 1000000000 {
            return true;
        }
        let shifted: i64 = self.seconds + 8334601228800;
        assert(shifted % 60 == self.seconds % 60);
        shifted % 60 == 59
    }

    /// The milliseconds since the Unix epoch.
    pub open spec fn millis(self) -> int {
        self.seconds * 1000 + self.nanos as int / 1000000
    }

    /// The time in milliseconds since the Unix epoch. What is less than one is
    /// dropped.
    pub fn unix_millis(&self) -> (millis: i64)
        requires
            self.valid(),
        ensures
            millis == self.millis(),
    {
        self.seconds * 1000 + (self.nanos / 1000000) as i64
    }

    /// Whether the time comes after another one.
    pub fn is_after(&self, other: &Timestamp) -> (after: bool)
        ensures
            after == !self.not_after(*other),
    {
        self.seconds > other.seconds || self.seconds == other.seconds && self.nanos > other.nanos
    }
}

/// The milliseconds since the Unix epoch that can be told as a time.
pub open spec fn valid_millis(millis: int) -> bool {
    -8334601228800000 <= millis <= 8210266876799999
}

/// The current time: `chrono::Utc::now`. Of the machine's clock nothing is known
/// but that it tells a time from the epoch on that can be told and is in no leap
/// second; one that does not makes `chrono` panic.
#[verifier::external_body]
pub(crate) fn now() -> (time: Timestamp)
    ensures
        0 <= time.seconds,
        time.nanos < 1000000000,
        time.valid(),
{
    let time = chrono::Utc::now();
    Timestamp { seconds: time.timestamp(), nanos: time.timestamp_subsec_nanos() }
}

/// The current time in milliseconds since the Unix epoch.
pub(crate) fn now_millis() -> (millis: i64)
    ensures
        0 <= millis,
        valid_millis(millis as int),
{
    now().unix_millis()
}

pub open spec fn two_digits(number: int) -> Seq<char> {
    seq![digit_char(number / 10), digit_char(number % 10)]
}

/// The seconds since midnight.
pub open spec fn second_of_day(time: Timestamp) -> int {
    time.seconds as int % 86400
}

/// A time as `HH:MM`.
pub open spec fn hour_minute(time: Timestamp) -> Seq<char> {
    two_digits(second_of_day(time) / 3600) + seq![':'] + two_digits(
        (second_of_day(time) / 60) % 60,
    )
}

/// A time as `HH:MM:SS`. A leap second is the second 60 of its minute.
pub open spec fn hour_minute_second(time: Timestamp) -> Seq<char> {
    hour_minute(time) + seq![':'] + two_digits(
        second_of_day(time) % 60 + time.nanos as int / 1000000000,
    )
}

/// The date in UTC of a second since the Unix epoch, as `YYYY-MM-DD`.
pub uninterp spec fn utc_date(seconds: int) -> Seq<char>;

/// A time in UTC by a pattern: `chrono::DateTime::format` with `%H:%M`, with
/// `%H:%M:%S` or with `%Y-%m-%d`.
#[verifier::external_body]
pub(crate) fn time_text(time: Timestamp, pattern: &str) -> (text: String)
    requires
        time.valid(),
        pattern@ == "%H:%M"@ || pattern@ == "%H:%M:%S"@ || pattern@ == "%Y-%m-%d"@,
    ensures
        pattern@ == "%H:%M"@ ==> text@ == hour_minute(time),
        pattern@ == "%H:%M:%S"@ ==> text@ == hour_minute_second(time),
        pattern@ == "%Y-%m-%d"@ ==> text@ == utc_date(time.seconds as int),
{
    let told = chrono::DateTime::from_timestamp(time.seconds, time.nanos).unwrap_or_default();
    told.format(pattern).to_string()
}

/// A time in UTC in the form of RFC 3339.
pub uninterp spec fn utc_rfc3339(seconds: int, nanos: int) -> Seq<char>;

/// The time in full: `chrono::DateTime::from_timestamp` and
/// `chrono::DateTime::to_rfc3339`, in UTC.
#[verifier::external_body]
pub(crate) fn rfc3339_text(time: Timestamp) -> (text: String)
    requires
        time.valid(),
    ensures
        text@ == utc_rfc3339(time.seconds as int, time.nanos as int),
{
    chrono::DateTime::from_timestamp(time.seconds, time.nanos).unwrap_or_default().to_rfc3339()
}

/// The nanoseconds from one time to another. A leap second counts where the
/// other time lies on the far side of it in the day.
pub open spec fn elapsed_nanos(from: Timestamp, to: Timestamp) -> int {
    let leap = if second_of_day(to) > second_of_day(from) && from.nanos >= 1000000000 {
        1int
    } else if second_of_day(to) < second_of_day(from) && to.nanos >= 1000000000 {
        -1int
    } else {
        0int
    };
    (to.seconds - from.seconds + leap) * 1000000000 + to.nanos - from.nanos
}

/// The time from one point to another, in whole seconds and the nanoseconds that
/// are left: `chrono::DateTime::signed_duration_since`, with
/// `chrono::TimeDelta::num_seconds` and `chrono::TimeDelta::subsec_nanos`. Both
/// parts have the sign of the whole.
#[verifier::external_body]
pub(crate) fn duration_between(from: Timestamp, to: Timestamp) -> (duration: (i64, i32))
    requires
        from.valid(),
        to.valid(),
    ensures
        duration.0 * 1000000000 + duration.1 == elapsed_nanos(from, to),
        -1000000000 < duration.1 < 1000000000,
        elapsed_nanos(from, to) >= 0 ==> duration.0 >= 0 && duration.1 >= 0,
        elapsed_nanos(from, to) <= 0 ==> duration.0 <= 0 && duration.1 <= 0,
{
    let start = chrono::DateTime::from_timestamp(from.seconds, from.nanos).unwrap_or_default();
    let end = chrono::DateTime::from_timestamp(to.seconds, to.nanos).unwrap_or_default();
    let delta = end.signed_duration_since(start);
    (delta.num_seconds(), delta.subsec_nanos())
}

/// The milliseconds from one time to another, none where that one is earlier.
pub open spec fn elapsed_millis(from: Timestamp, to: Timestamp) -> int {
    if elapsed_nanos(from, to) > 0 {
        elapsed_nanos(from, to) / 1000000
    } else {
        0
    }
}

/// The seconds from one time to another, none where that one is earlier.
pub open spec fn elapsed_seconds(from: Timestamp, to: Timestamp) -> int {
    if elapsed_nanos(from, to) > 0 {
        elapsed_nanos(from, to) / 1000000000
    } else {
        0
    }
}

/// How many milliseconds one time comes after another.
pub(crate) fn millis_between(from: Timestamp, to: Timestamp) -> (millis: u64)
    requires
        from.valid(),
        to.valid(),
    ensures
        millis == elapsed_millis(from, to),
{
    let (seconds, nanos) = duration_between(from, to);
    if seconds < 0 || nanos < 0 {
        return 0;
    }
    (seconds as u64) * 1000 + (nanos as u64) / 1000000
}

/// How many seconds one time comes after another.
pub(crate) fn seconds_between(from: Timestamp, to: Timestamp) -> (whole: u64)
    requires
        from.valid(),
        to.valid(),
    ensures
        whole == elapsed_seconds(from, to),
{
    let (seconds, nanos) = duration_between(from, to);
    if seconds < 0 || nanos < 0 {
        return 0;
    }
    seconds as u64
}

} // verus!
