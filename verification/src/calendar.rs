//! Calendar days as plain day numbers, with chrono doing what only it can:
//! reading the local clock, naming weekdays and months, parsing dates.
//!
//! A day is its number in the proleptic Gregorian calendar, January 1 of
//! year 1 being day 1 (chrono's `num_days_from_ce`). Going a day forward or
//! back is adding or subtracting one.
use chrono::Datelike;
use chrono::NaiveDate;
use chrono::TimeZone;
use vstd::prelude::*;

verus! {

/// Number of the first day chrono can represent (`NaiveDate::MIN`, January 1
/// of year -262143, `MIN_YEAR` being `(i32::MIN >> 13) + 1`).
pub open spec fn first_day() -> int {
    -95_746_129
}

/// Number of the last day chrono can represent (`NaiveDate::MAX`, December 31
/// of year 262142, `MAX_YEAR` being `(i32::MAX >> 13) - 1`).
pub open spec fn last_day() -> int {
    95_745_399
}

/// Number of December 31, 1969: the local date is never earlier once the
/// clock reads 1970 or later, as a time zone is less than a day off UTC.
pub open spec fn epoch_eve() -> int {
    719_162
}

/// The day numbers chrono can turn into a date.
pub open spec fn is_calendar_day(day: int) -> bool {
    first_day() <= day <= last_day()
}

/// Days since the last Monday: day 1 (January 1 of year 1) is a Monday in the
/// proleptic Gregorian calendar.
pub open spec fn weekday_index(day: int) -> int {
    (day - 1) % 7
}

/// The Monday that starts the week holding `day`.
pub open spec fn week_start(day: int) -> int {
    day - weekday_index(day)
}

/// The strftime patterns the planner formats days with.
pub open spec fn is_day_pattern(pattern: Seq<char>) -> bool {
    ||| pattern == "%Y-%m-%d"@
    ||| pattern == "%A"@
    ||| pattern == "%b %-d"@
    ||| pattern == "%A %b %-d"@
}

/// The text chrono renders for `day` with a strftime `pattern`.
pub uninterp spec fn formatted_day(day: int, pattern: Seq<char>) -> Seq<char>;

/// The day chrono reads from `text` with a strftime `pattern`, if any.
pub uninterp spec fn parsed_day(text: Seq<char>, pattern: Seq<char>) -> Option<int>;

/// The key a day's plan is stored under: its `%Y-%m-%d` text.
pub open spec fn iso_date(day: int) -> Seq<char> {
    formatted_day(day, "%Y-%m-%d"@)
}

/// Today's day number in the local time zone, read as `chrono::Local::now()`
/// reads it (`Utc::now` is `DateTime::from_timestamp` of the system time
/// since the Unix epoch, then the local offset is added), but with every step
/// that can fail checked: `None` when the system clock is before 1970 or the
/// local date is out of chrono's range. A day that is given is a day chrono
/// can represent (every `NaiveDate` is) and not before December 31, 1969
/// (the timestamp is not negative and a `FixedOffset` is less than a day).
#[verifier::external_body]
pub(crate) fn local_today() -> (day: Option<i32>)
    ensures
        day matches Some(d) ==> is_calendar_day(d as int) && epoch_eve() <= d,
{
    let since = std::time::SystemTime::now().duration_since(std::time::UNIX_EPOCH).ok()?;
    let secs = i64::try_from(since.as_secs()).ok()?;
    let utc = chrono::DateTime::from_timestamp(secs, since.subsec_nanos())?.naive_utc();
    let local = utc.checked_add_offset(chrono::Local.offset_from_utc_datetime(&utc))?;
    Some(local.date().num_days_from_ce())
}

/// The current local date and time as RFC 3339 text, as
/// `chrono::Local::now().to_rfc3339()` gives it, read without the panic of
/// `Utc::now`: `None` when the system clock is before 1970 or beyond
/// chrono's range. Which time it shows depends on the clock; its shape does
/// not: a year of at least four digits, then month, day, hour, minute and
/// second of two digits each with their separators, then an offset of the
/// form `+HH:MM`, so at least 25 characters.
#[verifier::external_body]
pub(crate) fn local_timestamp() -> (stamp: Option<String>)
    ensures
        stamp matches Some(t) ==> t@.len() >= 25,
{
    let since = std::time::SystemTime::now().duration_since(std::time::UNIX_EPOCH).ok()?;
    let secs = i64::try_from(since.as_secs()).ok()?;
    let utc = chrono::DateTime::from_timestamp(secs, since.subsec_nanos())?;
    Some(utc.with_timezone(&chrono::Local).to_rfc3339())
}

/// The current local time of day as chrono's `%H:%M` rendering of it, read
/// as `local_timestamp` reads the clock: `None` when the system clock is
/// before 1970 or beyond chrono's range. The hour and the minute are each
/// zero-padded to two digits, so the text is five characters with a colon
/// in the middle; which time it shows depends on the clock.
#[verifier::external_body]
fn local_clock_time() -> (time: Option<String>)
    ensures
        time matches Some(t) ==> t@.len() == 5 && t@[2] == ':',
{
    let since = std::time::SystemTime::now().duration_since(std::time::UNIX_EPOCH).ok()?;
    let secs = i64::try_from(since.as_secs()).ok()?;
    let utc = chrono::DateTime::from_timestamp(secs, since.subsec_nanos())?;
    Some(utc.with_timezone(&chrono::Local).format("%H:%M").to_string())
}

/// The local time of day as `HH:MM`; `None` only when the clock cannot be
/// read (see `local_clock_time`).
pub fn current_time() -> (time: Option<String>)
    ensures
        time matches Some(t) ==> t@.len() == 5 && t@[2] == ':',
{
    local_clock_time()
}

/// Days since the last Monday of `day`, as chrono's
/// `weekday().num_days_from_monday()` gives it: chrono counts in the
/// proleptic Gregorian calendar, where day 1 is a Monday.
pub fn weekday_from_monday(day: i32) -> (w: u32)
    requires
        is_calendar_day(day as int),
    ensures
        w == weekday_index(day as int),
        w < 7,
{
    let shifted: i32 = day - 1 + 98_000_000;
    proof {
        vstd::arithmetic::div_mod::lemma_mod_multiples_vanish(14_000_000, day - 1, 7);
        assert(7 * 14_000_000 + (day - 1) == shifted);
    }
    (shifted as u32) % 7
}

/// `NaiveDate::format(pattern).to_string()` on the date with number `day`
/// (`NaiveDate::from_num_days_from_ce_opt`, which gives a date for every day
/// chrono can represent). The text is named, not spelled out: it is chrono's
/// English rendering of the pattern. `requires` keeps to patterns that chrono
/// renders without panicking and to days it can represent. A `%Y-%m-%d` text
/// has at least ten characters: the year is zero-padded to four digits, the
/// month and the day to two.
#[verifier::external_body]
pub(crate) fn format_day(day: i32, pattern: &str) -> (text: String)
    requires
        is_calendar_day(day as int),
        is_day_pattern(pattern@),
    ensures
        text@ == formatted_day(day as int, pattern@),
        pattern@ == "%Y-%m-%d"@ ==> text@.len() >= 10,
{
    NaiveDate::from_num_days_from_ce_opt(day).unwrap().format(pattern).to_string()
}

/// `NaiveDate::parse_from_str(text, pattern)`, as a day number
/// (`num_days_from_ce`) when it succeeds. Every `NaiveDate` lies in chrono's
/// range, so a parsed day is a calendar day.
#[verifier::external_body]
pub(crate) fn parse_day(text: &str, pattern: &str) -> (day: Option<i32>)
    ensures
        match day {
            Some(d) => parsed_day(text@, pattern@) == Some(d as int) && is_calendar_day(d as int),
            None => parsed_day(text@, pattern@) is None,
        },
{
    match NaiveDate::parse_from_str(text, pattern) {
        Ok(date) => Some(date.num_days_from_ce()),
        Err(_) => None,
    }
}

/// The Monday of the week that holds `today`
/// (`today - Duration::days(today.weekday().num_days_from_monday())`).
pub fn week_start_of(today: i32) -> (monday: i32)
    requires
        is_calendar_day(today as int),
        is_calendar_day(week_start(today as int)),
    ensures
        monday == week_start(today as int),
        monday <= today,
        today - monday < 7,
{
    let w = weekday_from_monday(today);
    today - w as i32
}

/// The `%Y-%m-%d` text of `day`.
pub fn iso_date_of(day: i32) -> (text: String)
    requires
        is_calendar_day(day as int),
    ensures
        text@ == iso_date(day as int),
        text@.len() >= 10,
{
    format_day(day, "%Y-%m-%d")
}

/// Today's local date as `%Y-%m-%d` text (`Local::now().format("%Y-%m-%d")`);
/// `None` only when the clock cannot be read (see `local_today`).
pub fn today_date() -> (text: Option<String>)
    ensures
        text matches Some(t) ==> exists|day: int|
            #[trigger] is_calendar_day(day) && epoch_eve() <= day && t@ == iso_date(day),
{
    match local_today() {
        Some(today) => Some(iso_date_of(today)),
        None => None,
    }
}

} // verus!
