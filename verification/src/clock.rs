//! Points in time, the clock and fresh identifiers.

use vstd::prelude::*;

verus! {

/// The day of `secs` counted from 1 January 1970 (day 0).
pub open spec fn epoch_day(secs: i64) -> int {
    secs as int / 86400
}

/// The second of its day at which `secs` falls.
pub open spec fn second_of_day(secs: i64) -> int {
    secs as int % 86400
}

/// Whether `chrono::DateTime::<Utc>::from_timestamp(secs, nanos)` gives a
/// point in time: its day lies between 1 January of the year -262143 and 31
/// December 262142 (chrono's range of dates), and the nanoseconds are under
/// two seconds, a second or more (a leap second) only in the last second of
/// a minute.
pub open spec fn utc_representable(secs: i64, nanos: u32) -> bool {
    &&& -95746129 <= epoch_day(secs) + 719163 <= 95745399
    &&& nanos < 2_000_000_000
    &&& nanos >= 1_000_000_000 ==> second_of_day(secs) % 60 == 59
}

/// The civil date (year, month, day) of the day `days` counted from 1
/// January 1970, in the proleptic Gregorian calendar.
pub open spec fn civil_date(days: int) -> (int, int, int) {
    let z = days + 719468;
    let era = z / 146097;
    let doe = z - era * 146097;
    let yoe = (doe - doe / 1460 + doe / 36524 - doe / 146096) / 365;
    let y = yoe + era * 400;
    let doy = doe - (365 * yoe + yoe / 4 - yoe / 100);
    let mp = (5 * doy + 2) / 153;
    let d = doy - (153 * mp + 2) / 5 + 1;
    let m = if mp < 10 { mp + 3 } else { mp - 9 };
    (if m <= 2 { y + 1 } else { y }, m, d)
}

/// Two digits, with a leading zero (`%H`, `%M`, `%S`, `%m`, `%d`).
pub open spec fn two_digits(n: int) -> Seq<char> {
    seq![crate::text::digit_char((n / 10) as nat), crate::text::digit_char((n % 10) as nat)]
}

/// The digits of `n` with leading zeros up to four.
pub open spec fn four_digits(n: nat) -> Seq<char> {
    let d = crate::text::decimal(n);
    Seq::new((if d.len() < 4 { 4 - d.len() } else { 0 }) as nat, |i: int| '0') + d
}

/// `%Y`: years 0 to 9999 in four digits; others signed, with at least four
/// digits.
pub open spec fn year_text(y: int) -> Seq<char> {
    if 0 <= y <= 9999 {
        four_digits(y as nat)
    } else if y < 0 {
        seq!['-'] + four_digits((-y) as nat)
    } else {
        seq!['+'] + four_digits(y as nat)
    }
}

/// `%H:%M` of the point.
pub open spec fn hour_minute_of(secs: i64) -> Seq<char> {
    let s = second_of_day(secs);
    two_digits(s / 3600) + seq![':'] + two_digits(s % 3600 / 60)
}

/// The text chrono's `format` renders for the point `secs`/`nanos` with the
/// format strings used here: `%H:%M`, `%H:%M:%S` (a leap second shows as 60)
/// and `%Y-%m-%d %H:%M`; any other format string gives the empty text.
pub open spec fn utc_formatted(secs: i64, nanos: u32, fmt: Seq<char>) -> Seq<char> {
    let s = second_of_day(secs);
    if fmt == "%H:%M"@ {
        hour_minute_of(secs)
    } else if fmt == "%H:%M:%S"@ {
        hour_minute_of(secs) + seq![':'] + two_digits(s % 60 + if nanos >= 1_000_000_000 { 1int } else { 0int })
    } else if fmt == "%Y-%m-%d %H:%M"@ {
        let (y, m, d) = civil_date(epoch_day(secs));
        year_text(y) + seq!['-'] + two_digits(m) + seq!['-'] + two_digits(d) + seq![' '] + hour_minute_of(secs)
    } else {
        Seq::empty()
    }
}

/// A point in time (UTC): seconds since the Unix epoch and nanoseconds into
/// the second.
#[derive(Debug, Clone, Copy, PartialEq, Eq)]
pub struct Timestamp {
    secs: i64,
    nanos: u32,
}

impl Timestamp {
    /// The point is one chrono can represent.
    #[verifier::type_invariant]
    spec fn representable(self) -> bool {
        utc_representable(self.secs, self.nanos)
    }

    pub closed spec fn spec_secs(self) -> i64 {
        self.secs
    }

    pub closed spec fn spec_nanos(self) -> u32 {
        self.nanos
    }

    /// Seconds since the Unix epoch.
    pub fn secs(&self) -> (r: i64)
        ensures
            r == self.spec_secs(),
    {
        self.secs
    }

    /// Nanoseconds into the second.
    pub fn nanos(&self) -> (r: u32)
        ensures
            r == self.spec_nanos(),
    {
        self.nanos
    }

    /// The point `secs`/`nanos`, when chrono can represent it.
    pub fn from_parts(secs: i64, nanos: u32) -> (r: Option<Timestamp>)
        ensures
            r is Some <==> utc_representable(secs, nanos),
            r matches Some(t) ==> t.spec_secs() == secs && t.spec_nanos() == nanos,
    {
        if representable_check(secs, nanos) {
            Some(Timestamp { secs, nanos })
        } else {
            None
        }
    }

    /// `%H:%M` of this point.
    pub fn hour_minute(&self) -> (r: String)
        ensures
            r@ == utc_formatted(self.spec_secs(), self.spec_nanos(), "%H:%M"@),
    {
        proof { use_type_invariant(self); }
        format_utc(self.secs, self.nanos, "%H:%M")
    }

    /// `%H:%M:%S` of this point.
    pub fn hour_minute_second(&self) -> (r: String)
        ensures
            r@ == utc_formatted(self.spec_secs(), self.spec_nanos(), "%H:%M:%S"@),
    {
        proof { use_type_invariant(self); }
        format_utc(self.secs, self.nanos, "%H:%M:%S")
    }

    /// `%Y-%m-%d %H:%M` of this point.
    pub fn date_hour_minute(&self) -> (r: String)
        ensures
            r@ == utc_formatted(self.spec_secs(), self.spec_nanos(), "%Y-%m-%d %H:%M"@),
    {
        proof { use_type_invariant(self); }
        format_utc(self.secs, self.nanos, "%Y-%m-%d %H:%M")
    }
}

/// Calls `chrono::DateTime::<Utc>::from_timestamp` and reports whether it
/// gave a point in time.
#[verifier::external_body]
fn representable_check(secs: i64, nanos: u32) -> (r: bool)
    ensures
        r == utc_representable(secs, nanos),
{
    chrono::DateTime::<chrono::Utc>::from_timestamp(secs, nanos).is_some()
}

/// Calls chrono's `format` on the point `secs`/`nanos` and renders it: the
/// hour, minute and second of its day and its civil date, as `utc_formatted`
/// writes them out. Only the three format strings used here are passed.
#[verifier::external_body]
fn format_utc(secs: i64, nanos: u32, fmt: &str) -> (r: String)
    requires
        utc_representable(secs, nanos),
        fmt@ == "%H:%M"@ || fmt@ == "%H:%M:%S"@ || fmt@ == "%Y-%m-%d %H:%M"@,
    ensures
        r@ == utc_formatted(secs, nanos, fmt@),
{
    match chrono::DateTime::<chrono::Utc>::from_timestamp(secs, nanos) {
        Some(d) => d.format(fmt).to_string(),
        None => String::new(),
    }
}

/// Calls `chrono::Utc::now()`: the current time. Nothing is claimed of which
/// point it is; chrono guarantees that its seconds and nanoseconds round-trip
/// through `from_timestamp`.
#[verifier::external_body]
pub fn now() -> (r: Timestamp)
{
    let t = chrono::Utc::now();
    Timestamp { secs: t.timestamp(), nanos: t.timestamp_subsec_nanos() }
}

/// `c` is a lowercase hexadecimal digit or a hyphen.
pub open spec fn is_uuid_char(c: char) -> bool {
    ('0' <= c && c <= '9') || ('a' <= c && c <= 'f') || c == '-'
}

/// Where the hyphenated form of a UUID has its hyphens.
pub open spec fn is_uuid_hyphen_at(i: int) -> bool {
    i == 8 || i == 13 || i == 18 || i == 23
}

/// Calls `uuid::Uuid::new_v4()` and renders it with `to_string`: a random
/// identifier. What holds of every outcome is the hyphenated lowercase form
/// the uuid crate documents: 36 characters, hyphens at positions 8, 13, 18
/// and 23 and lowercase hexadecimal digits elsewhere, the version digit `4`
/// and a variant digit among `8`, `9`, `a` and `b`.
#[verifier::external_body]
pub fn new_uuid() -> (r: String)
    ensures
        r@.len() == 36,
        forall|i: int| 0 <= i < 36 ==> is_uuid_char(#[trigger] r@[i]),
        forall|i: int| 0 <= i < 36 ==> (#[trigger] r@[i] == '-' <==> is_uuid_hyphen_at(i)),
        r@[14] == '4',
        r@[19] == '8' || r@[19] == '9' || r@[19] == 'a' || r@[19] == 'b',
{
    uuid::Uuid::new_v4().to_string()
}

} // verus!
