//! Timestamps and their presentation. A point in time is an epoch second;
//! what the local calendar says about it — date, clock time, weekday — is
//! computed by the time-zone library and carried here as plain parts, so
//! that every formatting decision on those parts is checked.

use vstd::prelude::*;
use vstd::string::*;
use chrono::Datelike;
use chrono::Timelike;
use crate::digits::{
    digit_str, i64_to_string, spec_digit_char, spec_idec, spec_udec, u64_to_string,
};

verus! {

/// A timestamp together with what the local calendar says about it. The
/// epoch second `ts` identifies the moment; the remaining fields describe
/// it in the machine's time zone: the day's ordinal, the civil date, the
/// clock time, and the weekday counted from Monday.
#[derive(Debug, Clone, Copy, PartialEq, Eq, Structural)]
pub struct LocalParts {
    pub ts: i64,
    pub day_number: i64,
    pub month: u8,
    pub day: u8,
    pub hour: u8,
    pub minute: u8,
    pub weekday: u8,
}

impl LocalParts {
    /// The field ranges a calendar reading satisfies: a valid civil date
    /// and clock time, a day ordinal that fits the calendar's span, and a
    /// timestamp within the range the time-zone library covers.
    pub open spec fn wf(&self) -> bool {
        &&& 1 <= self.month <= 12
        &&& 1 <= self.day <= 31
        &&& self.hour <= 23
        &&& self.minute <= 59
        &&& self.weekday <= 6
        &&& -2147483648 <= self.day_number <= 2147483647
        &&& -10_000_000_000_000 <= self.ts <= 10_000_000_000_000
    }
}

/// Relies on chrono: `DateTime::from_timestamp` accepts exactly the
/// timestamps in its documented range, and the `Datelike` and `Timelike`
/// readings of the local date are a valid calendar date and clock time.
/// The local calendar depends on the machine's time zone, so nothing more
/// is claimed about the parts.
#[verifier::external_body]
pub fn local_parts(ts: i64) -> (r: Option<LocalParts>)
    ensures
        match r {
            Some(p) => p.wf() && p.ts == ts,
            None => true,
        },
        -8_000_000_000_000 <= ts <= 8_000_000_000_000 ==> r is Some,
{
    let local = chrono::DateTime::from_timestamp(ts, 0)?.with_timezone(&chrono::Local);
    Some(
        LocalParts {
            ts: ts,
            day_number: local.num_days_from_ce() as i64,
            month: local.month() as u8,
            day: local.day() as u8,
            hour: local.hour() as u8,
            minute: local.minute() as u8,
            weekday: local.weekday().num_days_from_monday() as u8,
        },
    )
}

/// Relies on chrono: `Local::now` reads the clock; every reading is one
/// timestamp, and nothing more can be said of it.
#[verifier::external_body]
pub fn now_ts() -> (r: i64) {
    chrono::Local::now().timestamp()
}

/// A number below one hundred written with exactly two digits.
pub open spec fn spec_two_digit(n: int) -> Seq<char> {
    seq![spec_digit_char(n / 10), spec_digit_char(n % 10)]
}

fn two_digit(n: u8) -> (r: String)
    requires
        n < 100,
    ensures
        r@ == spec_two_digit(n as int),
{
    let mut s = String::from_str(digit_str((n / 10) as u64));
    s.append(digit_str((n % 10) as u64));
    proof {
        assert(s@ =~= spec_two_digit(n as int));
    }
    s
}

/// The clock reading of a moment: a two-digit twelve-hour figure, the
/// minutes, and the half of the day, as in `03:05 pm`.
pub open spec fn spec_format_time(p: LocalParts) -> Seq<char> {
    let hour12 = if p.hour % 12 == 0 {
        12int
    } else {
        (p.hour % 12) as int
    };
    spec_two_digit(hour12) + ":"@ + spec_two_digit(p.minute as int) + " "@ + (if p.hour < 12 {
        "am"@
    } else {
        "pm"@
    })
}

/// Writes the clock reading of a moment.
pub fn format_time(p: &LocalParts) -> (r: String)
    requires
        p.wf(),
    ensures
        r@ == spec_format_time(*p),
{
    let hour12: u8 = if p.hour % 12 == 0 {
        12
    } else {
        p.hour % 12
    };
    let mut s = two_digit(hour12);
    s.append(":");
    let minutes = two_digit(p.minute);
    s.append(minutes.as_str());
    s.append(" ");
    if p.hour < 12 {
        s.append("am");
    } else {
        s.append("pm");
    }
    s
}

/// The weekday's name, counted from Monday.
pub open spec fn spec_weekday_name(w: int) -> Seq<char> {
    if w == 0 {
        "Monday"@
    } else if w == 1 {
        "Tuesday"@
    } else if w == 2 {
        "Wednesday"@
    } else if w == 3 {
        "Thursday"@
    } else if w == 4 {
        "Friday"@
    } else if w == 5 {
        "Saturday"@
    } else {
        "Sunday"@
    }
}

fn weekday_name(w: u8) -> (r: String)
    ensures
        r@ == spec_weekday_name(w as int),
{
    if w == 0 {
        String::from_str("Monday")
    } else if w == 1 {
        String::from_str("Tuesday")
    } else if w == 2 {
        String::from_str("Wednesday")
    } else if w == 3 {
        String::from_str("Thursday")
    } else if w == 4 {
        String::from_str("Friday")
    } else if w == 5 {
        String::from_str("Saturday")
    } else {
        String::from_str("Sunday")
    }
}

/// The month's short name, counted from one.
pub open spec fn spec_month_name(m: int) -> Seq<char> {
    if m == 1 {
        "Jan"@
    } else if m == 2 {
        "Feb"@
    } else if m == 3 {
        "Mar"@
    } else if m == 4 {
        "Apr"@
    } else if m == 5 {
        "May"@
    } else if m == 6 {
        "Jun"@
    } else if m == 7 {
        "Jul"@
    } else if m == 8 {
        "Aug"@
    } else if m == 9 {
        "Sep"@
    } else if m == 10 {
        "Oct"@
    } else if m == 11 {
        "Nov"@
    } else {
        "Dec"@
    }
}

fn month_name(m: u8) -> (r: String)
    ensures
        r@ == spec_month_name(m as int),
{
    if m == 1 {
        String::from_str("Jan")
    } else if m == 2 {
        String::from_str("Feb")
    } else if m == 3 {
        String::from_str("Mar")
    } else if m == 4 {
        String::from_str("Apr")
    } else if m == 5 {
        String::from_str("May")
    } else if m == 6 {
        String::from_str("Jun")
    } else if m == 7 {
        String::from_str("Jul")
    } else if m == 8 {
        String::from_str("Aug")
    } else if m == 9 {
        String::from_str("Sep")
    } else if m == 10 {
        String::from_str("Oct")
    } else if m == 11 {
        String::from_str("Nov")
    } else {
        String::from_str("Dec")
    }
}

/// How a due moment is announced relative to now: by name for the
/// surrounding two weeks — today, tomorrow, this weekday, next weekday —
/// and by date beyond them.
pub open spec fn spec_format_datetime(now: LocalParts, due: LocalParts) -> Seq<char> {
    let t = spec_format_time(due);
    let diff = due.day_number - now.day_number;
    if diff == 0 {
        "today at "@ + t
    } else if diff == 1 {
        "tomorrow at "@ + t
    } else if 0 <= diff < 7 {
        "this "@ + spec_weekday_name(due.weekday as int) + " at "@ + t
    } else if 7 <= diff < 14 {
        "next "@ + spec_weekday_name(due.weekday as int) + " at "@ + t
    } else {
        "on "@ + spec_month_name(due.month as int) + " "@ + spec_two_digit(due.day as int)
            + " at "@ + t
    }
}

/// Writes when a due moment falls, relative to now.
pub fn format_datetime(now: &LocalParts, due: &LocalParts) -> (r: String)
    requires
        now.wf(),
        due.wf(),
    ensures
        r@ == spec_format_datetime(*now, *due),
{
    let t = format_time(due);
    let diff: i64 = due.day_number - now.day_number;
    if diff == 0 {
        let mut s = String::from_str("today at ");
        s.append(t.as_str());
        s
    } else if diff == 1 {
        let mut s = String::from_str("tomorrow at ");
        s.append(t.as_str());
        s
    } else if 0 <= diff && diff < 7 {
        let mut s = String::from_str("this ");
        let w = weekday_name(due.weekday);
        s.append(w.as_str());
        s.append(" at ");
        s.append(t.as_str());
        proof {
            assert(s@ =~= spec_format_datetime(*now, *due));
        }
        s
    } else if 7 <= diff && diff < 14 {
        let mut s = String::from_str("next ");
        let w = weekday_name(due.weekday);
        s.append(w.as_str());
        s.append(" at ");
        s.append(t.as_str());
        proof {
            assert(s@ =~= spec_format_datetime(*now, *due));
        }
        s
    } else {
        let mut s = String::from_str("on ");
        let m = month_name(due.month);
        s.append(m.as_str());
        s.append(" ");
        let d = two_digit(due.day);
        s.append(d.as_str());
        s.append(" at ");
        s.append(t.as_str());
        proof {
            assert(s@ =~= spec_format_datetime(*now, *due));
        }
        s
    }
}

/// The width of a span from an earlier to a later moment: a figure in
/// hours below two days, in calendar days beyond.
pub open spec fn spec_format_duration(a: LocalParts, b: LocalParts) -> Seq<char> {
    let secs = b.ts - a.ts;
    let hours = secs / 3600;
    if hours == 1 {
        "1 hour"@
    } else if secs < 172800 {
        spec_udec(hours as nat) + " hours"@
    } else {
        spec_idec(b.day_number - a.day_number) + " days"@
    }
}

/// Writes the width of a span from an earlier to a later moment.
pub fn format_duration(a: &LocalParts, b: &LocalParts) -> (r: String)
    requires
        a.wf(),
        b.wf(),
        b.ts >= a.ts,
    ensures
        r@ == spec_format_duration(*a, *b),
{
    let secs: i64 = b.ts - a.ts;
    let hours: u64 = (secs as u64) / 3600;
    proof {
        assert(hours == (b.ts - a.ts) / 3600);
    }
    if hours == 1 {
        String::from_str("1 hour")
    } else if secs < 172800 {
        let mut s = u64_to_string(hours);
        s.append(" hours");
        s
    } else {
        let days: i64 = b.day_number - a.day_number;
        let mut s = i64_to_string(days);
        s.append(" days");
        s
    }
}

/// The announcement of a span between now and a moment on either side of
/// it: `in ...` ahead, `... ago` behind.
pub open spec fn spec_format_duration_full(a: LocalParts, b: LocalParts) -> Seq<char> {
    if b.ts > a.ts {
        "in "@ + spec_format_duration(a, b)
    } else {
        spec_format_duration(b, a) + " ago"@
    }
}

/// Writes the span between now and a moment, saying which side of now it
/// falls on.
pub fn format_duration_full(a: &LocalParts, b: &LocalParts) -> (r: String)
    requires
        a.wf(),
        b.wf(),
    ensures
        r@ == spec_format_duration_full(*a, *b),
{
    if b.ts > a.ts {
        let mut s = String::from_str("in ");
        let d = format_duration(a, b);
        s.append(d.as_str());
        s
    } else {
        let mut s = format_duration(b, a);
        s.append(" ago");
        s
    }
}

} // verus!
