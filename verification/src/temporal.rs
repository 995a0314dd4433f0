use vstd::prelude::*;

verus! {

use vstd::string::StringExecFns;
use crate::text::dec_pad;
use crate::text::dec_pad_chars;
use crate::value::Date;
use crate::value::DateTime;
use crate::value::Time;
use crate::value::Zone;

/// A date as `YYYY-MM-DD`, fixed width, zero-padded.
pub open spec fn date_chars(d: Date) -> Seq<char> {
    dec_pad_chars(d.year as int, 4) + "-"@ + dec_pad_chars(d.month as int, 2) + "-"@
        + dec_pad_chars(d.day as int, 2)
}

/// The fractional-second part: empty when the microseconds are zero, else
/// a point followed by exactly six digits.
pub open spec fn fraction_chars(microsecond: u32) -> Seq<char> {
    if microsecond == 0 {
        Seq::<char>::empty()
    } else {
        "."@ + dec_pad_chars(microsecond as int, 6)
    }
}

/// A time of day as `HH:MM:SS`, with the fractional part when it is
/// non-zero.
pub open spec fn clock_chars(hour: u8, minute: u8, second: u8, microsecond: u32) -> Seq<char> {
    dec_pad_chars(hour as int, 2) + ":"@ + dec_pad_chars(minute as int, 2) + ":"@ + dec_pad_chars(
        second as int,
        2,
    ) + fraction_chars(microsecond)
}

/// A bare time value's text. The timezone flag plays no part here: a time
/// carrying timezone information is rejected before formatting.
pub open spec fn time_chars(t: Time) -> Seq<char> {
    clock_chars(t.hour, t.minute, t.second, t.microsecond)
}

/// The timezone suffix: `Z` for UTC, a signed `HH:MM` offset for a fixed
/// offset, nothing for a naive value. An unsupported representation never
/// reaches formatting.
pub open spec fn zone_chars(z: Zone) -> Seq<char> {
    match z {
        Zone::Naive => Seq::<char>::empty(),
        Zone::Utc => "Z"@,
        Zone::Fixed(minutes) => (if minutes < 0 {
            "-"@
        } else {
            "+"@
        }) + dec_pad_chars(abs_minutes(minutes as int) / 60, 2) + ":"@ + dec_pad_chars(
            abs_minutes(minutes as int) % 60,
            2,
        ),
        Zone::Unsupported => Seq::<char>::empty(),
    }
}

/// The magnitude of an offset in minutes.
pub open spec fn abs_minutes(minutes: int) -> int {
    if minutes < 0 {
        -minutes
    } else {
        minutes
    }
}

/// A date-time as date, `T`, clock time and timezone suffix.
pub open spec fn datetime_chars(dt: DateTime) -> Seq<char> {
    dec_pad_chars(dt.year as int, 4) + "-"@ + dec_pad_chars(dt.month as int, 2) + "-"@
        + dec_pad_chars(dt.day as int, 2) + "T"@ + clock_chars(
        dt.hour,
        dt.minute,
        dt.second,
        dt.microsecond,
    ) + zone_chars(dt.zone)
}

/// Renders a date in its canonical form.
pub fn format_date(d: &Date) -> (r: String)
    ensures
        r@ == date_chars(*d),
{
    let mut out = dec_pad(d.year as u64, 4);
    out.append("-");
    out.append(dec_pad(d.month as u64, 2).as_str());
    out.append("-");
    out.append(dec_pad(d.day as u64, 2).as_str());
    proof {
        assert(out@ =~= date_chars(*d));
    }
    out
}

/// Renders the clock part shared by times and date-times.
fn format_clock(hour: u8, minute: u8, second: u8, microsecond: u32) -> (r: String)
    ensures
        r@ == clock_chars(hour, minute, second, microsecond),
{
    let mut out = dec_pad(hour as u64, 2);
    out.append(":");
    out.append(dec_pad(minute as u64, 2).as_str());
    out.append(":");
    out.append(dec_pad(second as u64, 2).as_str());
    if microsecond != 0 {
        out.append(".");
        out.append(dec_pad(microsecond as u64, 6).as_str());
    }
    proof {
        assert(out@ =~= clock_chars(hour, minute, second, microsecond));
    }
    out
}

/// Renders a bare time in its canonical form. Whether the value carries
/// timezone information is for the encoder to reject; the text is the same.
pub fn format_time(t: &Time) -> (r: String)
    ensures
        r@ == time_chars(*t),
{
    format_clock(t.hour, t.minute, t.second, t.microsecond)
}

/// Renders a date-time in its canonical form, with its timezone suffix.
/// Only naive, UTC and fixed-offset zones can be rendered.
pub fn format_datetime(dt: &DateTime) -> (r: String)
    requires
        !(dt.zone is Unsupported),
    ensures
        r@ == datetime_chars(*dt),
{
    let mut out = dec_pad(dt.year as u64, 4);
    out.append("-");
    out.append(dec_pad(dt.month as u64, 2).as_str());
    out.append("-");
    out.append(dec_pad(dt.day as u64, 2).as_str());
    out.append("T");
    out.append(format_clock(dt.hour, dt.minute, dt.second, dt.microsecond).as_str());
    match dt.zone {
        Zone::Naive => (),
        Zone::Utc => out.append("Z"),
        Zone::Fixed(minutes) => {
            let magnitude: i64 = if minutes < 0 {
                out.append("-");
                -(minutes as i64)
            } else {
                out.append("+");
                minutes as i64
            };
            out.append(dec_pad((magnitude / 60) as u64, 2).as_str());
            out.append(":");
            out.append(dec_pad((magnitude % 60) as u64, 2).as_str());
        },
        Zone::Unsupported => (),
    }
    proof {
        assert(out@ =~= datetime_chars(*dt));
    }
    out
}

/// Formatting a temporal value is a function of the value alone: two equal
/// values always render to the same text.
pub proof fn lemma_formatting_deterministic(d1: Date, d2: Date, t1: Time, t2: Time, dt1: DateTime, dt2: DateTime)
    requires
        d1 == d2,
        t1 == t2,
        dt1 == dt2,
    ensures
        date_chars(d1) == date_chars(d2),
        time_chars(t1) == time_chars(t2),
        datetime_chars(dt1) == datetime_chars(dt2),
{
}

} // verus!
