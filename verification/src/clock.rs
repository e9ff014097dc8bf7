//! Clock readings and Beijing wall-clock time (UTC+8).
use vstd::prelude::*;
use crate::text::fits_i64;
use crate::buy::BEIJING_OFFSET_SECONDS;

verus! {

pub type Instant = std::time::Instant;

#[verifier::external_type_specification]
#[verifier::external_body]
pub struct ExInstant(std::time::Instant);

/// A reading of the monotonic clock: calls `Instant::now`. Nothing is claimed
/// of the reading.
#[verifier::external_body]
pub(crate) fn instant_now() -> Instant {
    std::time::Instant::now()
}

/// Whole milliseconds elapsed since `start`: calls `Instant::elapsed` and
/// `Duration::as_millis`. Nothing is claimed of the value, which depends on the clock.
#[verifier::external_body]
pub(crate) fn elapsed_ms(start: &Instant) -> u128 {
    start.elapsed().as_millis()
}

/// Whole milliseconds from `earlier` to `later`, zero when `later` is not after
/// `earlier`: calls `Instant::duration_since` and `Duration::as_millis`. Nothing
/// is claimed of the value.
#[verifier::external_body]
pub(crate) fn millis_between(earlier: &Instant, later: &Instant) -> u128 {
    later.duration_since(*earlier).as_millis()
}

/// An instant, read on the Beijing wall clock.
#[derive(Clone, Copy, Debug, PartialEq, Eq, Structural)]
pub struct BeijingTime {
    /// Milliseconds since the Unix epoch.
    pub timestamp_ms: i64,
}

/// Milliseconds since Beijing midnight of the day that holds `timestamp_ms`.
pub open spec fn ms_of_day(timestamp_ms: int) -> int {
    (timestamp_ms + 28_800_000) % 86_400_000
}

impl BeijingTime {
    /// Offset of Beijing time from UTC, in seconds.
    pub fn offset_local_minus_utc(&self) -> (r: i32)
        ensures
            r == BEIJING_OFFSET_SECONDS,
    {
        BEIJING_OFFSET_SECONDS
    }

    fn ms_of_day(&self) -> (r: i128)
        ensures
            r == ms_of_day(self.timestamp_ms as int),
            0 <= r < 86_400_000,
    {
        // shifted by a whole number of days so that the dividend is not negative
        let x: i128 = self.timestamp_ms as i128 + 28_800_000 + 9_244_800_000_000_000_000;
        proof {
            vstd::arithmetic::div_mod::lemma_mod_multiples_vanish(
                107_000_000_000,
                self.timestamp_ms as int + 28_800_000,
                86_400_000,
            );
        }
        x % 86_400_000
    }

    /// The hour (0..24) on the Beijing clock.
    pub fn hour(&self) -> (r: u32)
        ensures
            r == ms_of_day(self.timestamp_ms as int) / 3_600_000,
            r < 24,
    {
        (self.ms_of_day() / 3_600_000) as u32
    }

    /// The minute (0..60) on the Beijing clock.
    pub fn minute(&self) -> (r: u32)
        ensures
            r == (ms_of_day(self.timestamp_ms as int) / 60_000) % 60,
            r < 60,
    {
        ((self.ms_of_day() / 60_000) % 60) as u32
    }

    /// The second (0..60) on the Beijing clock.
    pub fn second(&self) -> (r: u32)
        ensures
            r == (ms_of_day(self.timestamp_ms as int) / 1_000) % 60,
            r < 60,
    {
        ((self.ms_of_day() / 1_000) % 60) as u32
    }
}

/// The current time (`chrono::Local::now`), read on the Beijing clock.
#[verifier::external_body]
pub(crate) fn beijing_now() -> BeijingTime {
    BeijingTime { timestamp_ms: chrono::Local::now().timestamp_millis() }
}

/// What chrono makes of `text` under `format` read as local time at a fixed
/// UTC offset of `offset_seconds`: `None` when `NaiveDateTime::parse_from_str`
/// fails, `Some(None)` when the parsed date and time has no single instant at
/// that offset, else `Some(Some(ms))` with the Unix time in milliseconds.
pub uninterp spec fn chrono_parse_at_offset(text: Seq<char>, format: Seq<char>, offset_seconds: i32) -> Option<
    Option<i64>,
>;

/// Parses `text` with `chrono::NaiveDateTime::parse_from_str` under `format`
/// and places the result at the fixed offset `FixedOffset::east_opt(offset_seconds)`
/// (`and_local_timezone(..).single()`, then `timestamp_millis`). The contract
/// claims only that the result is a function of the three arguments.
#[verifier::external_body]
fn parse_with_format(text: &str, format: &str, offset_seconds: i32) -> (r: Option<Option<i64>>)
    requires
        -86_400 < offset_seconds < 86_400,
    ensures
        r == chrono_parse_at_offset(text@, format@, offset_seconds),
{
    let offset = chrono::FixedOffset::east_opt(offset_seconds).unwrap();
    match chrono::NaiveDateTime::parse_from_str(text, format) {
        Ok(t) => match t.and_local_timezone(offset).single() {
            Some(d) => Some(Some(d.timestamp_millis())),
            None => Some(None),
        },
        Err(_) => None,
    }
}

pub open spec fn parse_beijing_spec(text: Seq<char>) -> Option<BeijingTime> {
    let r = if chrono_parse_at_offset(text, "%Y-%m-%d %H:%M:%S"@, BEIJING_OFFSET_SECONDS) is Some {
        chrono_parse_at_offset(text, "%Y-%m-%d %H:%M:%S"@, BEIJING_OFFSET_SECONDS)->0
    } else if chrono_parse_at_offset(text, "%Y-%m-%dT%H:%M:%S"@, BEIJING_OFFSET_SECONDS) is Some {
        chrono_parse_at_offset(text, "%Y-%m-%dT%H:%M:%S"@, BEIJING_OFFSET_SECONDS)->0
    } else if chrono_parse_at_offset(text, "%Y-%m-%d %H:%M"@, BEIJING_OFFSET_SECONDS) is Some {
        chrono_parse_at_offset(text, "%Y-%m-%d %H:%M"@, BEIJING_OFFSET_SECONDS)->0
    } else if chrono_parse_at_offset(text, "%Y-%m-%dT%H:%M"@, BEIJING_OFFSET_SECONDS) is Some {
        chrono_parse_at_offset(text, "%Y-%m-%dT%H:%M"@, BEIJING_OFFSET_SECONDS)->0
    } else {
        None
    };
    match r {
        Some(ms) => Some(BeijingTime { timestamp_ms: ms }),
        None => None,
    }
}

/// Reads a scheduled time as Beijing time, trying in turn
/// `YYYY-MM-DD HH:MM:SS`, `YYYY-MM-DDTHH:MM:SS`, `YYYY-MM-DD HH:MM` and
/// `YYYY-MM-DDTHH:MM`; the first format that parses decides.
pub fn parse_beijing_time(ts: &str) -> (r: Option<BeijingTime>)
    ensures
        r == parse_beijing_spec(ts@),
{
    let parsed = match parse_with_format(ts, "%Y-%m-%d %H:%M:%S", BEIJING_OFFSET_SECONDS) {
        Some(x) => x,
        None => match parse_with_format(ts, "%Y-%m-%dT%H:%M:%S", BEIJING_OFFSET_SECONDS) {
            Some(x) => x,
            None => match parse_with_format(ts, "%Y-%m-%d %H:%M", BEIJING_OFFSET_SECONDS) {
                Some(x) => x,
                None => match parse_with_format(ts, "%Y-%m-%dT%H:%M", BEIJING_OFFSET_SECONDS) {
                    Some(x) => x,
                    None => None,
                },
            },
        },
    };
    match parsed {
        Some(ms) => Some(BeijingTime { timestamp_ms: ms }),
        None => None,
    }
}

/// Milliseconds from `now` until `target`, with the server clock `offset_ms`
/// ahead of the local one: `target - offset - now`.
pub fn remaining_ms_until(target: &BeijingTime, offset_ms: i64, now: &BeijingTime) -> (r: i64)
    requires
        fits_i64(target.timestamp_ms - offset_ms),
        fits_i64(target.timestamp_ms - offset_ms - now.timestamp_ms),
    ensures
        r == target.timestamp_ms - offset_ms - now.timestamp_ms,
{
    let shifted = target.timestamp_ms - offset_ms;
    shifted - now.timestamp_ms
}

/// The moment one minute before the sale, when a waiting task restarts to refresh its cookies.
pub fn pre_sale_restart_time(target: &BeijingTime) -> (r: BeijingTime)
    requires
        target.timestamp_ms >= i64::MIN + crate::buy::PRE_SALE_RESTART_BEFORE_START_MS,
    ensures
        r.timestamp_ms == target.timestamp_ms - crate::buy::PRE_SALE_RESTART_BEFORE_START_MS,
{
    BeijingTime { timestamp_ms: target.timestamp_ms - crate::buy::PRE_SALE_RESTART_BEFORE_START_MS }
}

/// How a task starts, given its scheduled start time.
pub enum ScheduleStart {
    /// No schedule: the task starts at once.
    Immediately,
    /// The task waits for this moment.
    At(BeijingTime),
    /// The schedule does not parse; the task reports this message and ends.
    Invalid(String),
}

/// The message reported for a scheduled start time that does not parse.
pub open spec fn invalid_schedule_message_spec(ts: Seq<char>) -> Seq<char> {
    "Invalid scheduled start time format: "@ + ts
        + ". Expected YYYY-MM-DD HH:mm or YYYY-MM-DD HH:mm:ss."@
}

pub fn invalid_schedule_message(ts: &str) -> (r: String)
    ensures
        r@ == invalid_schedule_message_spec(ts@),
{
    let a = crate::text::concat_str("Invalid scheduled start time format: ", ts);
    crate::text::concat_str(a.as_str(), ". Expected YYYY-MM-DD HH:mm or YYYY-MM-DD HH:mm:ss.")
}

/// A task without a schedule starts at once; one whose schedule parses (see
/// `parse_beijing_time`) waits for it; any other reports
/// `invalid_schedule_message_spec` and ends.
pub fn schedule_start(time_start: Option<&str>) -> (r: ScheduleStart)
    ensures
        match time_start {
            None => r is Immediately,
            Some(ts) => match parse_beijing_spec(ts@) {
                Some(t) => r == ScheduleStart::At(t),
                None => r matches ScheduleStart::Invalid(m) && m@ == invalid_schedule_message_spec(ts@),
            },
        },
{
    match time_start {
        None => ScheduleStart::Immediately,
        Some(ts) => match parse_beijing_time(ts) {
            Some(t) => ScheduleStart::At(t),
            None => ScheduleStart::Invalid(invalid_schedule_message(ts)),
        },
    }
}

/// What chrono prints for the Unix time `ms` (milliseconds) shown at a fixed
/// UTC offset of `offset_seconds` under `format`; `None` when the time is out
/// of chrono's range.
pub uninterp spec fn chrono_format_at_offset(ms: i64, offset_seconds: i32, format: Seq<char>) -> Option<
    Seq<char>,
>;

/// Calls `chrono::DateTime::from_timestamp_millis`, `with_timezone` at
/// `FixedOffset::east_opt(offset_seconds)` and `format(..).to_string()`. The
/// contract claims only that the text is a function of the three arguments.
/// The formats admitted are valid chrono formats, for which printing does not fail.
#[verifier::external_body]
fn format_at_offset(ms: i64, offset_seconds: i32, format: &str) -> (r: Option<String>)
    requires
        -86_400 < offset_seconds < 86_400,
        format@ == "%Y-%m-%d %H:%M:%S"@ || format@ == "%Y-%m-%d %H:%M:%S%.3f"@,
    ensures
        match r {
            Some(t) => chrono_format_at_offset(ms, offset_seconds, format@) == Some(t@),
            None => chrono_format_at_offset(ms, offset_seconds, format@) is None,
        },
{
    let offset = chrono::FixedOffset::east_opt(offset_seconds).unwrap();
    match chrono::DateTime::from_timestamp_millis(ms) {
        Some(d) => Some(d.with_timezone(&offset).format(format).to_string()),
        None => None,
    }
}

impl BeijingTime {
    /// The time as `YYYY-MM-DD HH:MM:SS` on the Beijing clock, as order history shows it.
    pub fn history_text(&self) -> (r: Option<String>)
        ensures
            match r {
                Some(t) => chrono_format_at_offset(
                    self.timestamp_ms,
                    BEIJING_OFFSET_SECONDS,
                    "%Y-%m-%d %H:%M:%S"@,
                ) == Some(t@),
                None => chrono_format_at_offset(
                    self.timestamp_ms,
                    BEIJING_OFFSET_SECONDS,
                    "%Y-%m-%d %H:%M:%S"@,
                ) is None,
            },
    {
        format_at_offset(self.timestamp_ms, BEIJING_OFFSET_SECONDS, "%Y-%m-%d %H:%M:%S")
    }

    /// The time as `YYYY-MM-DD HH:MM:SS.mmm` on the Beijing clock, as task logs show it.
    pub fn log_text(&self) -> (r: Option<String>)
        ensures
            match r {
                Some(t) => chrono_format_at_offset(
                    self.timestamp_ms,
                    BEIJING_OFFSET_SECONDS,
                    "%Y-%m-%d %H:%M:%S%.3f"@,
                ) == Some(t@),
                None => chrono_format_at_offset(
                    self.timestamp_ms,
                    BEIJING_OFFSET_SECONDS,
                    "%Y-%m-%d %H:%M:%S%.3f"@,
                ) is None,
            },
    {
        format_at_offset(self.timestamp_ms, BEIJING_OFFSET_SECONDS, "%Y-%m-%d %H:%M:%S%.3f")
    }
}

} // verus!
