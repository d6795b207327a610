//! Points in time, to the nanosecond, and the text under which they are stored.

use chrono::{DateTime, SecondsFormat, Utc};
use vstd::prelude::*;

verus! {

/// Whether a point in time has this many seconds since the start of 1970, and
/// this many nanoseconds on top: the year is one of -262143 to 262142, and a
/// second and more of nanoseconds stands for a leap second at the end of a
/// minute.
pub open spec fn is_timestamp(secs: i64, nanos: u32) -> bool {
    &&& -8_334_601_228_800 <= secs <= 8_210_266_876_799
    &&& nanos < 1_000_000_000 || (nanos < 2_000_000_000 && secs % 60 == 59)
}

/// Whether the second lies in one of the years 0 to 9999.
pub open spec fn has_four_digit_year(secs: i64) -> bool {
    -62_167_219_200 <= secs <= 253_402_300_799
}

/// The RFC 3339 text of a point in time, with nine digits after the second and
/// a `Z`.
pub uninterp spec fn rfc3339_nanos(secs: i64, nanos: u32) -> Seq<char>;

/// The RFC 3339 text of a point in time, with as many digits after the second
/// as it takes and `+00:00`.
pub uninterp spec fn rfc3339_short(secs: i64, nanos: u32) -> Seq<char>;

/// The point in time that an RFC 3339 text gives, or what is wrong with a text
/// that is none.
pub uninterp spec fn rfc3339_read(text: Seq<char>) -> Result<(i64, u32), Seq<char>>;

/// Whether a text is read as this point in time.
pub open spec fn reads_as(text: Seq<char>, t: (i64, u32)) -> bool {
    rfc3339_read(text) == Ok::<(i64, u32), Seq<char>>(t)
}

/// `DateTime::from_timestamp`, read back with `timestamp` and
/// `timestamp_subsec_nanos`: these are guaranteed to round-trip, and there is a
/// point in time exactly if the seconds are in range and the nanoseconds fit
/// the second.
#[verifier::external_body]
fn point_in_time(secs: i64, nanos: u32) -> (r: Option<(i64, u32)>)
    ensures
        r == if is_timestamp(secs, nanos) {
            Some((secs, nanos))
        } else {
            None
        },
{
    DateTime::from_timestamp(secs, nanos).map(|t| (t.timestamp(), t.timestamp_subsec_nanos()))
}

/// `DateTime::to_rfc3339_opts` with nanoseconds and a `Z`. The text is a
/// function of the point in time; in the years 0 to 9999 it has the form that
/// `DateTime::parse_from_rfc3339` reads back to the same point.
#[verifier::external_body]
fn write_rfc3339_nanos(secs: i64, nanos: u32) -> (r: String)
    requires
        is_timestamp(secs, nanos),
    ensures
        r@ == rfc3339_nanos(secs, nanos),
        has_four_digit_year(secs) ==> reads_as(r@, (secs, nanos)),
{
    DateTime::from_timestamp(secs, nanos).unwrap().to_rfc3339_opts(SecondsFormat::Nanos, true)
}

/// `DateTime::to_rfc3339`. The text is a function of the point in time; in the
/// years 0 to 9999 it has the form that `DateTime::parse_from_rfc3339` reads
/// back to the same point.
#[verifier::external_body]
fn write_rfc3339_short(secs: i64, nanos: u32) -> (r: String)
    requires
        is_timestamp(secs, nanos),
    ensures
        r@ == rfc3339_short(secs, nanos),
        has_four_digit_year(secs) ==> reads_as(r@, (secs, nanos)),
{
    DateTime::from_timestamp(secs, nanos).unwrap().to_rfc3339()
}

/// `DateTime::parse_from_rfc3339`, taken to UTC, with the words of its error.
/// What it gives is a function of the text; if it is no error, it is a point in
/// time.
#[verifier::external_body]
fn read_rfc3339(text: &str) -> (r: Result<(i64, u32), String>)
    ensures
        match r {
            Ok(t) => reads_as(text@, t) && is_timestamp(t.0, t.1),
            Err(e) => rfc3339_read(text@) == Err::<(i64, u32), Seq<char>>(e@),
        },
{
    let utc = DateTime::parse_from_rfc3339(text).map(|t| t.with_timezone(&Utc));
    utc.map(|t| (t.timestamp(), t.timestamp_subsec_nanos())).map_err(|e| e.to_string())
}

/// `Utc::now`: what the system clock shows, counted from the start of 1970. It
/// is a point in time that is not before that start, and its nanoseconds are
/// less than a second, so it is never a leap second. Which point it is depends
/// on the clock alone, and two readings need not be in order: nothing is said
/// of that. There is no reading of a clock that is set to before 1970:
/// `Utc::now` panics then.
#[verifier::external_body]
fn read_clock() -> (r: (i64, u32))
    ensures
        is_timestamp(r.0, r.1),
        r.0 >= 0,
        r.1 < 1_000_000_000,
{
    let now = Utc::now();
    (now.timestamp(), now.timestamp_subsec_nanos())
}

/// A point in time.
#[derive(Clone, Copy, Debug, PartialEq, Eq, Structural)]
pub struct Timestamp {
    secs: i64,
    nanos: u32,
}

impl View for Timestamp {
    type V = (i64, u32);

    closed spec fn view(&self) -> (i64, u32) {
        (self.secs, self.nanos)
    }
}

impl Timestamp {
    #[verifier::type_invariant]
    spec fn is_valid(self) -> bool {
        is_timestamp(self.secs, self.nanos)
    }

    /// The start of 1970.
    pub fn epoch() -> (r: Timestamp)
        ensures
            r@ == (0i64, 0u32),
    {
        Timestamp { secs: 0, nanos: 0 }
    }

    /// The point in time with this many seconds since the start of 1970, and
    /// this many nanoseconds on top, if there is one.
    pub fn from_timestamp(secs: i64, nanos: u32) -> (r: Option<Timestamp>)
        ensures
            match r {
                Some(t) => is_timestamp(secs, nanos) && t@ == (secs, nanos),
                None => !is_timestamp(secs, nanos),
            },
    {
        match point_in_time(secs, nanos) {
            Some((s, n)) => Some(Timestamp { secs: s, nanos: n }),
            None => None,
        }
    }

    /// The point in time that an RFC 3339 text gives, or what is wrong with
    /// it.
    pub fn parse_from_rfc3339(text: &str) -> (r: Result<Timestamp, String>)
        ensures
            match r {
                Ok(t) => reads_as(text@, t@),
                Err(e) => rfc3339_read(text@) == Err::<(i64, u32), Seq<char>>(e@),
            },
    {
        match read_rfc3339(text) {
            Ok((s, n)) => Ok(Timestamp { secs: s, nanos: n }),
            Err(e) => Err(e),
        }
    }

    /// The present, as the system clock shows it: not before the start of
    /// 1970, and no leap second.
    pub fn now() -> (r: Timestamp)
        ensures
            is_timestamp(r@.0, r@.1),
            r@.0 >= 0,
            r@.1 < 1_000_000_000,
    {
        let (s, n) = read_clock();
        Timestamp { secs: s, nanos: n }
    }

    /// Seconds since the start of 1970.
    pub fn timestamp(&self) -> (r: i64)
        ensures
            r == self@.0,
    {
        self.secs
    }

    /// Nanoseconds on top of the seconds.
    pub fn timestamp_subsec_nanos(&self) -> (r: u32)
        ensures
            r == self@.1,
            is_timestamp(self@.0, r),
    {
        proof {
            use_type_invariant(self);
        }
        self.nanos
    }

    /// The text under which the point in time is stored: the same text always
    /// stands for the same point, and in the years 0 to 9999 it is read back
    /// to it.
    pub fn to_rfc3339_nanos(&self) -> (r: String)
        ensures
            r@ == rfc3339_nanos(self@.0, self@.1),
            has_four_digit_year(self@.0) ==> reads_as(r@, self@),
    {
        proof {
            use_type_invariant(self);
        }
        write_rfc3339_nanos(self.secs, self.nanos)
    }

    /// A shorter text of the point in time, which in the years 0 to 9999 is
    /// read back to it too.
    pub fn to_rfc3339(&self) -> (r: String)
        ensures
            r@ == rfc3339_short(self@.0, self@.1),
            has_four_digit_year(self@.0) ==> reads_as(r@, self@),
    {
        proof {
            use_type_invariant(self);
        }
        write_rfc3339_short(self.secs, self.nanos)
    }
}

} // verus!
