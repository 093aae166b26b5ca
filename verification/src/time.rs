//! Calendar timestamps and the two fixed SigV4 date formats.

use vstd::prelude::*;

use chrono::Datelike;
use chrono::Timelike;

verus! {

/// A UTC instant, held as plain calendar fields.
#[derive(Clone, Copy, Debug)]
pub struct Timestamp {
    pub year: i32,
    pub month: u32,
    pub day: u32,
    pub hour: u32,
    pub minute: u32,
    pub second: u32,
}

impl Timestamp {
    /// Field ranges under which the fixed-width date formats are defined.
    pub open spec fn wf(self) -> bool {
        &&& 0 <= self.year <= 9999
        &&& 1 <= self.month <= 12
        &&& 1 <= self.day <= 31
        &&& self.hour < 24
        &&& self.minute < 60
        &&& self.second < 60
    }

    /// Build a timestamp, accepting exactly the field ranges `wf` asks for.
    pub fn new(year: i32, month: u32, day: u32, hour: u32, minute: u32, second: u32) -> (r:
        Option<Timestamp>)
        ensures
            match r {
                Some(ts) => ts.wf() && ts == (Timestamp { year, month, day, hour, minute, second }),
                None => !(Timestamp { year, month, day, hour, minute, second }).wf(),
            },
    {
        let ts = Timestamp { year, month, day, hour, minute, second };
        if 0 <= year && year <= 9999 && 1 <= month && month <= 12 && 1 <= day && day <= 31 && hour
            < 24 && minute < 60 && second < 60 {
            Some(ts)
        } else {
            None
        }
    }
}

/// The decimal digit character for the last decimal place of a number.
pub open spec fn dec_digit(n: int) -> u8 {
    (48 + (n % 10)) as u8
}

/// A number written as exactly four decimal digits, zero-padded.
pub open spec fn dec4(n: int) -> Seq<u8> {
    seq![dec_digit(n / 1000), dec_digit(n / 100), dec_digit(n / 10), dec_digit(n)]
}

/// A number written as exactly two decimal digits, zero-padded.
pub open spec fn dec2(n: int) -> Seq<u8> {
    seq![dec_digit(n / 10), dec_digit(n)]
}

/// The date alone, `YYYYMMDD`.
pub open spec fn date_stamp_of(ts: Timestamp) -> Seq<u8> {
    dec4(ts.year as int) + dec2(ts.month as int) + dec2(ts.day as int)
}

/// The full instant, `YYYYMMDDTHHMMSSZ`.
pub open spec fn amz_date_of(ts: Timestamp) -> Seq<u8> {
    date_stamp_of(ts) + seq![84u8] + dec2(ts.hour as int) + dec2(ts.minute as int) + dec2(
        ts.second as int,
    ) + seq![90u8]
}

/// Push `n` as exactly four zero-padded decimal digits.
fn push_dec4(out: &mut Vec<u8>, n: u32)
    requires
        n <= 9999,
    ensures
        final(out)@ == old(out)@ + dec4(n as int),
{
    out.push((48 + (n / 1000) % 10) as u8);
    out.push((48 + (n / 100) % 10) as u8);
    out.push((48 + (n / 10) % 10) as u8);
    out.push((48 + n % 10) as u8);
    proof {
        assert(out@ =~= old(out)@ + dec4(n as int));
    }
}

/// Push `n` as exactly two zero-padded decimal digits.
fn push_dec2(out: &mut Vec<u8>, n: u32)
    requires
        n <= 99,
    ensures
        final(out)@ == old(out)@ + dec2(n as int),
{
    out.push((48 + (n / 10) % 10) as u8);
    out.push((48 + n % 10) as u8);
    proof {
        assert(out@ =~= old(out)@ + dec2(n as int));
    }
}

/// Format the date alone, `YYYYMMDD`.
pub fn format_date_stamp(ts: &Timestamp) -> (r: Vec<u8>)
    requires
        ts.wf(),
    ensures
        r@ == date_stamp_of(*ts),
{
    let mut r: Vec<u8> = Vec::new();
    push_dec4(&mut r, ts.year as u32);
    push_dec2(&mut r, ts.month);
    push_dec2(&mut r, ts.day);
    proof {
        assert(r@ =~= date_stamp_of(*ts));
    }
    r
}

/// Format the full instant, `YYYYMMDDTHHMMSSZ`.
pub fn format_amz_date(ts: &Timestamp) -> (r: Vec<u8>)
    requires
        ts.wf(),
    ensures
        r@ == amz_date_of(*ts),
{
    let mut r: Vec<u8> = Vec::new();
    push_dec4(&mut r, ts.year as u32);
    push_dec2(&mut r, ts.month);
    push_dec2(&mut r, ts.day);
    r.push(84);
    push_dec2(&mut r, ts.hour);
    push_dec2(&mut r, ts.minute);
    push_dec2(&mut r, ts.second);
    r.push(90);
    proof {
        assert(r@ =~= amz_date_of(*ts));
    }
    r
}

/// Relies on chrono::Utc::now and the Datelike/Timelike accessors: the
/// current UTC instant's calendar fields, within the documented calendar
/// ranges (month 1..=12, day 1..=31, hour below 24, minute and second below
/// 60). Nothing is promised of the year.
#[verifier::external_body]
fn utc_now_fields() -> (r: (i32, u32, u32, u32, u32, u32))
    ensures
        1 <= r.1 <= 12,
        1 <= r.2 <= 31,
        r.3 < 24,
        r.4 < 60,
        r.5 < 60,
{
    let now = chrono::Utc::now();
    (now.year(), now.month(), now.day(), now.hour(), now.minute(), now.second())
}

/// The current UTC instant, or `None` if the clock's year falls outside the
/// four-digit range the date formats can carry.
pub fn now_utc() -> (r: Option<Timestamp>)
    ensures
        match r {
            Some(ts) => ts.wf(),
            None => true,
        },
{
    let (year, month, day, hour, minute, second) = utc_now_fields();
    Timestamp::new(year, month, day, hour, minute, second)
}

} // verus!
