//! What the widget shows of the local time: the clock tile's face (a
//! 12-hour time, am/pm, the weekday, the month and the day with its English
//! ordinal suffix) and how long ago the last update check ran. The time is
//! read and parsed with `chrono`.

use vstd::prelude::*;
use chrono::{Datelike, Timelike};
use crate::text::{decimal_text, digits_of, opt_view, u64_text};
use crate::widget::{last_checked_label, CheckedAgo};

verus! {

// ---------------------------------------------------------------------
// The clock tile

/// The local time, as the clock tile reads it.
#[derive(Debug)]
pub struct ClockReading {
    pub hour: u32,
    pub minute: u32,
    pub day: u32,
    /// The full weekday name (`Monday`).
    pub weekday: String,
    /// The full month name (`January`).
    pub month: String,
}

/// The local time read from the clock: hour, minute and day of the month,
/// and the instant itself (Unix seconds, nanoseconds past that second, and
/// the local UTC offset in seconds).
struct LocalInstant {
    hour: u32,
    minute: u32,
    day: u32,
    secs: i64,
    nanos: u32,
    offset: i32,
}

/// `chrono::Local::now()`, read through `hour`, `minute`, `day`,
/// `timestamp`, `timestamp_subsec_nanos` and the offset's
/// `local_minus_utc`. It reads the clock: claimed is only what chrono
/// documents of every such value: the hour, minute and day are those of the
/// instant at its offset (a local time is the UTC time plus the offset),
/// the field ranges (hour 0..=23, minute
/// 0..=59, day 1..=31), that the instant converts back
/// (`DateTime::from_timestamp` of its parts is the same instant), and that
/// an offset is less than a day.
#[verifier::external_body]
fn local_clock() -> (r: LocalInstant)
    ensures
        (r.hour, r.minute, r.day) == local_fields(r.secs, r.nanos, r.offset),
        r.hour < 24,
        r.minute < 60,
        1 <= r.day <= 31,
        instant_in_range(r.secs, r.nanos),
        -86_400 < r.offset < 86_400,
{
    let now = chrono::Local::now();
    LocalInstant {
        hour: now.hour(),
        minute: now.minute(),
        day: now.day(),
        secs: now.timestamp(),
        nanos: now.timestamp_subsec_nanos(),
        offset: now.offset().local_minus_utc(),
    }
}

/// The hour, minute and day of the month of an instant seen at a UTC offset
/// (chrono's `hour`, `minute` and `day` of the local date and time).
pub uninterp spec fn local_fields(secs: i64, nanos: u32, offset: i32) -> (u32, u32, u32);

/// Whether `DateTime::from_timestamp(secs, nanos)` gives an instant (it
/// depends on the two numbers alone).
pub uninterp spec fn instant_in_range(secs: i64, nanos: u32) -> bool;

/// What `chrono` writes for an instant seen at a UTC offset with a format;
/// none when the instant is out of range or the offset is a day or more.
pub uninterp spec fn formatted_instant(secs: i64, nanos: u32, offset: i32, format: Seq<char>) -> Option<Seq<char>>;

/// The formats the widget writes dates with: the date as `Jan 05`, the
/// full weekday name, the full month name.
pub open spec fn known_format(f: Seq<char>) -> bool {
    f == "%b %d"@ || f == "%A"@ || f == "%B"@
}

/// The English weekday names `%A` writes.
pub open spec fn weekday_names() -> Seq<Seq<char>> {
    seq!["Sunday"@, "Monday"@, "Tuesday"@, "Wednesday"@, "Thursday"@, "Friday"@, "Saturday"@]
}

/// The English month names `%B` writes.
pub open spec fn month_names() -> Seq<Seq<char>> {
    seq![
        "January"@, "February"@, "March"@, "April"@, "May"@, "June"@, "July"@, "August"@,
        "September"@, "October"@, "November"@, "December"@,
    ]
}

/// `DateTime::format(format).to_string()` of the instant
/// (`DateTime::from_timestamp`) seen at the offset
/// (`FixedOffset::east_opt`, which takes offsets of less than a day).
/// Claimed: the named text; a text exactly when the instant is in range and
/// the offset less than a day; for `%A` and `%B` one of chrono's English
/// weekday and month names (no locale is built in).
#[verifier::external_body]
fn format_instant(secs: i64, nanos: u32, offset: i32, format: &str) -> (r: Option<String>)
    requires
        known_format(format@),
    ensures
        opt_view(r) == formatted_instant(secs, nanos, offset, format@),
        r is Some <==> (instant_in_range(secs, nanos) && -86_400 < offset < 86_400),
        format@ == "%A"@ ==> (r matches Some(t) ==> weekday_names().contains(t@)),
        format@ == "%B"@ ==> (r matches Some(t) ==> month_names().contains(t@)),
{
    match (chrono::DateTime::from_timestamp(secs, nanos), chrono::FixedOffset::east_opt(offset)) {
        (Some(utc), Some(off)) => Some(utc.with_timezone(&off).format(format).to_string()),
        _ => None,
    }
}

/// What the clock tile shows.
#[derive(Debug)]
pub struct ClockFace {
    /// `h:mm`, 12-hour, the hour unpadded.
    pub time: String,
    pub ampm: &'static str,
    /// The weekday and a comma.
    pub weekday_line: String,
    /// The month and a space.
    pub month_line: String,
    /// The day of the month, shown in the accent colour.
    pub day: String,
    /// The day's ordinal suffix.
    pub suffix: &'static str,
}

/// The 12-hour clock's hour: 12 for midnight and noon.
pub open spec fn hour12(h: nat) -> nat {
    if h % 12 == 0 {
        12
    } else {
        h % 12
    }
}

/// A number padded to at least two digits with a leading zero.
pub open spec fn two_digit_text(m: nat) -> Seq<char> {
    if m < 10 {
        seq!['0'] + digits_of(m)
    } else {
        digits_of(m)
    }
}

/// The time as the tile writes it: `h:mm`.
pub open spec fn time_text(h: nat, m: nat) -> Seq<char> {
    digits_of(hour12(h)) + seq![':'] + two_digit_text(m)
}

/// `am` before noon, `pm` from noon.
pub open spec fn meridiem(h: nat) -> Seq<char> {
    if h < 12 {
        "am"@
    } else {
        "pm"@
    }
}

/// The English ordinal suffix of a day: `th` for 11 to 13 (and 111 to 113,
/// and so on), else `st`, `nd`, `rd` after a last digit 1, 2, 3, and `th`.
pub open spec fn day_suffix_of(d: nat) -> Seq<char> {
    if 11 <= d % 100 && d % 100 <= 13 {
        "th"@
    } else if d % 10 == 1 {
        "st"@
    } else if d % 10 == 2 {
        "nd"@
    } else if d % 10 == 3 {
        "rd"@
    } else {
        "th"@
    }
}

/// The face shown for a reading.
pub open spec fn shows(f: ClockFace, hour: nat, minute: nat, day: nat, weekday: Seq<char>, month: Seq<char>) -> bool {
    &&& f.time@ == time_text(hour, minute)
    &&& f.ampm@ == meridiem(hour)
    &&& f.weekday_line@ == weekday + seq![',']
    &&& f.month_line@ == month + seq![' ']
    &&& f.day@ == digits_of(day)
    &&& f.suffix@ == day_suffix_of(day)
}

/// The day's ordinal suffix.
pub fn day_suffix(day: u32) -> (r: &'static str)
    ensures
        r@ == day_suffix_of(day as nat),
{
    proof {
        reveal_strlit("th");
        reveal_strlit("st");
        reveal_strlit("nd");
        reveal_strlit("rd");
    }
    let t = day % 100;
    if 11 <= t && t <= 13 {
        "th"
    } else if day % 10 == 1 {
        "st"
    } else if day % 10 == 2 {
        "nd"
    } else if day % 10 == 3 {
        "rd"
    } else {
        "th"
    }
}

/// The clock tile's face for a reading of the local time.
pub fn clock_face(reading: ClockReading) -> (r: ClockFace)
    ensures
        shows(r, reading.hour as nat, reading.minute as nat, reading.day as nat, reading.weekday@, reading.month@),
{
    let h = reading.hour % 12;
    let h12: u32 = if h == 0 {
        12
    } else {
        h
    };
    let mut time = u64_text(h12 as u64);
    time.append(":");
    if reading.minute < 10 {
        time.append("0");
    }
    let m = u64_text(reading.minute as u64);
    time.append(m.as_str());
    proof {
        reveal_strlit(":");
        reveal_strlit("0");
        reveal_strlit(",");
        reveal_strlit(" ");
        reveal_strlit("am");
        reveal_strlit("pm");
        assert(time@ =~= time_text(reading.hour as nat, reading.minute as nat));
    }
    let ampm = if reading.hour < 12 {
        "am"
    } else {
        "pm"
    };
    let ghost w = reading.weekday@;
    let ghost mo = reading.month@;
    let mut weekday_line = reading.weekday;
    weekday_line.append(",");
    assert(weekday_line@ =~= w + seq![',']);
    let mut month_line = reading.month;
    month_line.append(" ");
    assert(month_line@ =~= mo + seq![' ']);
    ClockFace {
        time,
        ampm,
        weekday_line,
        month_line,
        day: u64_text(reading.day as u64),
        suffix: day_suffix(reading.day),
    }
}

/// The clock tile's face now. The time comes from the clock: what holds is
/// that the face is the one of some instant at the local offset, its
/// hour, minute and day and its weekday and month names all read from that
/// one instant, each field in range and the names English.
pub fn clock_now() -> (r: ClockFace)
    ensures
        exists|secs: i64, nanos: u32, offset: i32|
            #![trigger local_fields(secs, nanos, offset)]
            face_of_instant(r, secs, nanos, offset),
{
    let now = local_clock();
    let weekday = match format_instant(now.secs, now.nanos, now.offset, "%A") {
        Some(w) => w,
        None => {
            assert(false);
            String::new()
        },
    };
    let month = match format_instant(now.secs, now.nanos, now.offset, "%B") {
        Some(m) => m,
        None => {
            assert(false);
            String::new()
        },
    };
    let ghost (s, n, o) = (now.secs, now.nanos, now.offset);
    let reading = ClockReading { hour: now.hour, minute: now.minute, day: now.day, weekday, month };
    let ghost (h, m, d, w, mo) = (
        reading.hour as nat,
        reading.minute as nat,
        reading.day as nat,
        reading.weekday@,
        reading.month@,
    );
    let f = clock_face(reading);
    assert(shows(f, h, m, d, w, mo));
    assert(face_of_instant(f, s, n, o));
    f
}

/// The face of an instant seen at a UTC offset: its hour, minute and day
/// (in range) and its English weekday and month names.
pub open spec fn face_of_instant(f: ClockFace, secs: i64, nanos: u32, offset: i32) -> bool {
    let (h, m, d) = local_fields(secs, nanos, offset);
    &&& h < 24 && m < 60 && 1 <= d <= 31
    &&& formatted_instant(secs, nanos, offset, "%A"@) matches Some(w) && weekday_names().contains(w)
    &&& formatted_instant(secs, nanos, offset, "%B"@) matches Some(mo) && month_names().contains(mo)
    &&& shows(
        f,
        h as nat,
        m as nat,
        d as nat,
        formatted_instant(secs, nanos, offset, "%A"@)->0,
        formatted_instant(secs, nanos, offset, "%B"@)->0,
    )
}

// ---------------------------------------------------------------------
// The last update check

/// The instant RFC 3339 text names, as `chrono::DateTime::parse_from_rfc3339`
/// reads it: the Unix seconds, the nanoseconds past that second and the UTC
/// offset in seconds; none when the text is not RFC 3339.
pub uninterp spec fn rfc3339_instant(text: Seq<char>) -> Option<(i64, u32, i32)>;

/// `chrono::DateTime::parse_from_rfc3339`, its result read through
/// `timestamp`, `timestamp_subsec_nanos` and the offset's
/// `local_minus_utc`. Claimed: the named instant of the text; the parsed
/// instant converts back (chrono documents that `from_timestamp` of
/// `timestamp` and `timestamp_subsec_nanos` gives the instant again) and
/// its offset is less than a day (`FixedOffset` holds no other).
#[verifier::external_body]
fn parse_rfc3339(text: &str) -> (r: Option<(i64, u32, i32)>)
    ensures
        r == rfc3339_instant(text@),
        r matches Some(p) ==> instant_in_range(p.0, p.1) && -86_400 < p.2 < 86_400,
{
    match chrono::DateTime::parse_from_rfc3339(text) {
        Ok(dt) => Some((dt.timestamp(), dt.timestamp_subsec_nanos(), dt.offset().local_minus_utc())),
        Err(_) => None,
    }
}

/// `chrono::Local::now().signed_duration_since(then).num_seconds()` for the
/// instant `then` (`DateTime::from_timestamp`): the whole seconds since
/// then, toward zero; none when the instant is out of chrono's range. It
/// reads the clock: nothing is claimed of the number, only that there is
/// one exactly when the instant is in range.
#[verifier::external_body]
fn seconds_since(secs: i64, nanos: u32) -> (r: Option<i64>)
    ensures
        r is Some <==> instant_in_range(secs, nanos),
{
    match chrono::DateTime::from_timestamp(secs, nanos) {
        Some(then) => Some(chrono::Local::now().signed_duration_since(then).num_seconds()),
        None => None,
    }
}

/// Whole `unit`s in `s` seconds, toward zero (as `TimeDelta::num_minutes`
/// and `num_hours` divide the whole seconds).
pub open spec fn whole(s: int, unit: int) -> int {
    if s >= 0 {
        s / unit
    } else {
        -((-s) / unit)
    }
}

fn whole_units(s: i64, unit: u64) -> (r: i64)
    requires
        unit >= 60,
    ensures
        r == whole(s as int, unit as int),
{
    if s >= 0 {
        let a = s as u64;
        let q = a / unit;
        assert(q <= a / 60) by (nonlinear_arith)
            requires
                unit >= 60,
                q == a / unit,
        ;
        q as i64
    } else {
        let a = (-(s as i128)) as u64;
        assert(a <= 0x8000_0000_0000_0000);
        let q = a / unit;
        assert(q <= a / 60) by (nonlinear_arith)
            requires
                unit >= 60,
                q == a / unit,
        ;
        -(q as i64)
    }
}

/// The line for a check `s` whole seconds ago whose date reads `date`.
pub open spec fn checked_line(s: int, date: Seq<char>) -> Seq<char> {
    if whole(s, 60) < 1 {
        "Last checked: just now"@
    } else if whole(s, 60) < 60 {
        "Last checked: "@ + decimal_text(whole(s, 60)) + " min ago"@
    } else if whole(s, 3600) < 24 {
        "Last checked: "@ + decimal_text(whole(s, 3600)) + "h ago"@
    } else {
        "Last checked: "@ + date
    }
}

/// The line for a missing or unreadable time.
pub open spec fn never_line() -> Seq<char> {
    "Last checked: never"@
}

/// `r` is the line for some whole number of seconds (within `i64`) since a
/// check dated `d`.
pub open spec fn is_checked_line(r: Seq<char>, d: Seq<char>) -> bool {
    exists|s: int| #![trigger checked_line(s, d)] i64::MIN <= s <= i64::MAX && checked_line(s, d) == r
}

/// The "last checked" line for a stored time: never when there is none or
/// it is not RFC 3339; else the line for the whole seconds elapsed since
/// then, with the date written `%b %d` at the stored offset.
pub open spec fn last_checked_holds(raw: Option<Seq<char>>, r: Seq<char>) -> bool {
    match raw {
        None => r == never_line(),
        Some(t) => match rfc3339_instant(t) {
            None => r == never_line(),
            Some(p) => match formatted_instant(p.0, p.1, p.2, "%b %d"@) {
                Some(d) => is_checked_line(r, d),
                None => false,
            },
        },
    }
}

/// The view of an optional string slice.
pub open spec fn opt_text(o: Option<&str>) -> Option<Seq<char>> {
    match o {
        Some(t) => Some(t@),
        None => None,
    }
}

/// The "last checked" line for the stored time of the last update check:
/// never when there is none or it is not RFC 3339; otherwise the time
/// elapsed since then, read from the clock, or its date a day on.
pub fn last_checked(raw: Option<&str>) -> (r: String)
    ensures
        last_checked_holds(opt_text(raw), r@),
{
    let t = match raw {
        Some(t) => t,
        None => return last_checked_label(None),
    };
    let (secs, nanos, offset) = match parse_rfc3339(t) {
        Some(p) => p,
        None => return last_checked_label(None),
    };
    let date = match format_instant(secs, nanos, offset, "%b %d") {
        Some(d) => d,
        None => {
            assert(false);
            return last_checked_label(None);
        },
    };
    let ghost d = date@;
    let s = match seconds_since(secs, nanos) {
        Some(s) => s,
        None => {
            assert(false);
            return last_checked_label(None);
        },
    };
    let r = checked_line_for(s, date);
    assert(is_checked_line(r@, d));
    r
}

/// The "last checked" line for a check `s` whole seconds ago dated `date`.
pub fn checked_line_for(s: i64, date: String) -> (r: String)
    ensures
        r@ == checked_line(s as int, date@),
{
    let ago = CheckedAgo { minutes: whole_units(s, 60), hours: whole_units(s, 3600), date };
    last_checked_label(Some(ago))
}

} // verus!
