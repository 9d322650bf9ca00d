//! Time: unix timestamps and their civil (calendar) form. The calendar
//! conversions come from an outside crate; all policy over them is verified.

use vstd::prelude::*;

use chrono::{Datelike, TimeZone, Timelike};

use crate::text::{spec_dec_pad, u64_chars_pad};

verus! {

/// One second past the last instant the calendar wrappers accept
/// (the start of year 10000 UTC).
pub const TS_BOUND: i64 = 253402300800;

/// The first instant whose local civil year is 1970 in every time zone:
/// one day into the calendar range, since no zone offset reaches a day.
pub const TS_LOCAL_MIN: i64 = 86400;

/// One second past the last instant whose local civil year is at most 9999
/// in every time zone: one day short of the calendar bound.
pub const TS_LOCAL_MAX: i64 = 253402214400;

/// A civil date and time.
#[derive(Clone, Copy, Debug, PartialEq, Eq, Structural)]
pub struct Civil {
    pub year: i32,
    pub month: u32,
    pub day: u32,
    pub hour: u32,
    pub minute: u32,
    pub second: u32,
}

/// Well-formed civil fields, as the calendar wrappers return them.
pub open spec fn wf_civil(c: Civil) -> bool {
    &&& 1970 <= c.year <= 9999
    &&& 1 <= c.month <= 12
    &&& 1 <= c.day <= 31
    &&& c.hour < 24
    &&& c.minute < 60
    &&& c.second < 60
}

/// An instant together with its local civil form.
#[derive(Clone, Copy, Debug)]
pub struct ClockInfo {
    pub ts: i64,
    pub local: Civil,
}

/// Relies on `chrono::Utc::now`: the current unix timestamp. Nothing can be
/// promised of the system clock's value.
#[verifier::external_body]
fn chrono_now_ts() -> i64 {
    chrono::Utc::now().timestamp()
}

/// Relies on `chrono::TimeZone::timestamp_opt` on `chrono::Local` and the
/// `Datelike`/`Timelike` accessors: the local civil form of an instant in
/// range. The fields depend on the machine's time zone, so only their ranges
/// are stated; the admitted instants stay a day inside the calendar range,
/// since a zone offset never moves the local date further than that.
#[verifier::external_body]
pub fn local_civil(ts: i64) -> (r: Civil)
    requires
        TS_LOCAL_MIN <= ts < TS_LOCAL_MAX,
    ensures
        wf_civil(r),
{
    let dt = match chrono::Local.timestamp_opt(ts, 0).earliest() {
        Some(d) => d,
        None => chrono::Local.timestamp_opt(0, 0).earliest().unwrap(),
    };
    Civil {
        year: dt.year(),
        month: dt.month(),
        day: dt.day(),
        hour: dt.hour(),
        minute: dt.minute(),
        second: dt.second(),
    }
}

/// Relies on `chrono::TimeZone::timestamp_opt` on `chrono::Utc` and the
/// `Datelike`/`Timelike` accessors: the UTC civil form of an instant in
/// range.
#[verifier::external_body]
pub fn utc_civil(ts: i64) -> (r: Civil)
    requires
        0 <= ts < TS_BOUND,
    ensures
        wf_civil(r),
{
    let dt = match chrono::Utc.timestamp_opt(ts, 0).earliest() {
        Some(d) => d,
        None => chrono::Utc.timestamp_opt(0, 0).earliest().unwrap(),
    };
    Civil {
        year: dt.year(),
        month: dt.month(),
        day: dt.day(),
        hour: dt.hour(),
        minute: dt.minute(),
        second: dt.second(),
    }
}

/// The current instant with its local form; a clock outside the supported
/// range reads as its nearest edge.
pub fn clock_now() -> (r: ClockInfo)
    ensures
        TS_LOCAL_MIN <= r.ts < TS_LOCAL_MAX,
        wf_civil(r.local),
{
    let raw = chrono_now_ts();
    let ts: i64 = if raw < TS_LOCAL_MIN {
        TS_LOCAL_MIN
    } else if raw >= TS_LOCAL_MAX {
        TS_LOCAL_MAX - 1
    } else {
        raw
    };
    let local = local_civil(ts);
    ClockInfo { ts, local }
}

/// The compact timestamp used in archived transcript names.
pub open spec fn spec_compact(c: Civil) -> Seq<char> {
    spec_dec_pad(c.year as nat, 4) + spec_dec_pad(c.month as nat, 2) + spec_dec_pad(
        c.day as nat,
        2,
    ) + seq!['T'] + spec_dec_pad(c.hour as nat, 2) + spec_dec_pad(c.minute as nat, 2)
        + spec_dec_pad(c.second as nat, 2)
}

/// Render a civil time as a compact `YYYYMMDDTHHMMSS` stamp.
pub fn compact_timestamp(c: &Civil) -> (r: Vec<char>)
    requires
        wf_civil(*c),
    ensures
        r@ == spec_compact(*c),
{
    let mut v = u64_chars_pad(c.year as u64, 4);
    let mut m = u64_chars_pad(c.month as u64, 2);
    v.append(&mut m);
    let mut d = u64_chars_pad(c.day as u64, 2);
    v.append(&mut d);
    v.push('T');
    let mut h = u64_chars_pad(c.hour as u64, 2);
    v.append(&mut h);
    let mut mi = u64_chars_pad(c.minute as u64, 2);
    v.append(&mut mi);
    let mut s = u64_chars_pad(c.second as u64, 2);
    v.append(&mut s);
    assert(v@ =~= spec_compact(*c));
    v
}

/// Relies on `uuid::Uuid::new_v4` and its hyphenated `Display` form: a fresh
/// random identifier of 36 ASCII characters. Nothing more can be promised of
/// a random value.
#[verifier::external_body]
pub fn new_uuid() -> (r: String)
    ensures
        r@.len() == 36,
{
    uuid::Uuid::new_v4().to_string()
}

} // verus!
