//! Run timestamps: plain calendar fields, their rendering, and the clock.
//!
//! The formatter works on plain fields with checked ranges. Only the reading
//! of the clock itself is delegated to an outside crate, behind one trusted
//! wrapper; the offset to apply is handed in once by the caller.

use vstd::prelude::*;
use crate::text::{
    dec_digits, zero_pad, trim_zeros, push_padded, pop_zeros, chars_to_string,
};

verus! {

/// A calendar timestamp in the formatter's fixed offset: plain fields, as the
/// clock hands them out.
#[derive(Clone, Copy, Debug, PartialEq, Eq, Structural)]
pub struct Timestamp {
    pub year: i32,
    pub month: u8,
    pub day: u8,
    pub hour: u8,
    pub minute: u8,
    pub second: u8,
    pub nanosecond: u32,
}

impl Timestamp {
    /// Field ranges the formatter accepts: a year of at most four digits and
    /// in-range calendar and clock fields.
    pub open spec fn wf(self) -> bool {
        &&& 0 <= self.year <= 9999
        &&& 1 <= self.month <= 12
        &&& 1 <= self.day <= 31
        &&& self.hour <= 23
        &&& self.minute <= 59
        &&& self.second <= 59
        &&& self.nanosecond < 1000000000
    }

    /// Range-check plain fields into a timestamp; out-of-range fields are
    /// rejected, never clamped.
    pub fn from_fields(
        year: i32,
        month: u8,
        day: u8,
        hour: u8,
        minute: u8,
        second: u8,
        nanosecond: u32,
    ) -> (r: Option<Timestamp>)
        ensures
            r matches Some(t) ==> t == (Timestamp {
                year,
                month,
                day,
                hour,
                minute,
                second,
                nanosecond,
            }) && t.wf(),
            r is Some <==> (Timestamp { year, month, day, hour, minute, second, nanosecond }).wf(),
    {
        if 0 <= year && year <= 9999 && 1 <= month && month <= 12 && 1 <= day && day <= 31
            && hour <= 23 && minute <= 59 && second <= 59 && nanosecond < 1000000000 {
            Some(Timestamp { year, month, day, hour, minute, second, nanosecond })
        } else {
            None
        }
    }
}

/// The rendered form: zero-padded calendar fields joined by `-`, a dot, then
/// the subsecond digits with trailing zeros trimmed (at least one kept).
pub open spec fn spec_format_time(t: Timestamp) -> Seq<char> {
    zero_pad(dec_digits(t.year as nat), 4) + seq!['-'] + zero_pad(dec_digits(t.month as nat), 2)
        + seq!['-'] + zero_pad(dec_digits(t.day as nat), 2) + seq!['-'] + zero_pad(
        dec_digits(t.hour as nat),
        2,
    ) + seq!['-'] + zero_pad(dec_digits(t.minute as nat), 2) + seq!['-'] + zero_pad(
        dec_digits(t.second as nat),
        2,
    ) + seq!['.'] + trim_zeros(zero_pad(dec_digits(t.nanosecond as nat), 9))
}

proof fn lemma_dec_digits_nonempty(n: nat)
    ensures
        dec_digits(n).len() >= 1,
    decreases n,
{
    if n >= 10 {
        lemma_dec_digits_nonempty(n / 10);
    }
}

/// Render a timestamp as `year-month-day-hour-minute-second.subsecond`.
pub fn format_time(t: &Timestamp) -> (r: String)
    requires
        t.wf(),
    ensures
        r@ == spec_format_time(*t),
{
    let mut v: Vec<char> = Vec::new();
    push_padded(&mut v, t.year as u64, 4);
    v.push('-');
    push_padded(&mut v, t.month as u64, 2);
    v.push('-');
    push_padded(&mut v, t.day as u64, 2);
    v.push('-');
    push_padded(&mut v, t.hour as u64, 2);
    v.push('-');
    push_padded(&mut v, t.minute as u64, 2);
    v.push('-');
    push_padded(&mut v, t.second as u64, 2);
    v.push('.');
    let mut sub: Vec<char> = Vec::new();
    push_padded(&mut sub, t.nanosecond as u64, 9);
    proof {
        lemma_dec_digits_nonempty(t.nanosecond as nat);
    }
    pop_zeros(&mut sub);
    v.append(&mut sub);
    proof {
        assert(v@ =~= spec_format_time(*t));
    }
    chars_to_string(&v)
}

/// Relies on time's `OffsetDateTime`: the clock instant, adjusted to the given
/// whole-second offset (left in UTC when the offset or the adjusted instant is
/// outside the crate's range), broken into its documented calendar fields:
/// year in -9999..=9999, month 1..=12, day 1..=31, hour below 24, minute and
/// second below 60, nanosecond below one billion.
#[verifier::external_body]
fn now_fields(offset_seconds: i32) -> (r: (i32, u8, u8, u8, u8, u8, u32))
    ensures
        -9999 <= r.0 <= 9999,
        1 <= r.1 <= 12,
        1 <= r.2 <= 31,
        r.3 <= 23,
        r.4 <= 59,
        r.5 <= 59,
        r.6 < 1000000000,
{
    let now = time::OffsetDateTime::now_utc();
    let t = match time::UtcOffset::from_whole_seconds(offset_seconds) {
        Ok(off) => match now.checked_to_offset(off) {
            Some(adjusted) => adjusted,
            None => now,
        },
        Err(_) => now,
    };
    (t.year(), u8::from(t.month()), t.day(), t.hour(), t.minute(), t.second(), t.nanosecond())
}

/// The rendered timestamp of this instant, in the given whole-second offset.
///
/// `None` only for an instant whose adjusted year precedes year zero, which a
/// live clock does not produce.
pub fn current_stamp(offset_seconds: i32) -> (r: Option<String>)
    ensures
        r matches Some(s) ==> exists|t: Timestamp| t.wf() && s@ == spec_format_time(t),
{
    let (year, month, day, hour, minute, second, nanosecond) = now_fields(offset_seconds);
    match Timestamp::from_fields(year, month, day, hour, minute, second, nanosecond) {
        Some(t) => {
            let s = format_time(&t);
            proof {
                assert(t.wf() && s@ == spec_format_time(t));
            }
            Some(s)
        },
        None => None,
    }
}

} // verus!
