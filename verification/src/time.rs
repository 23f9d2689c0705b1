//! Instants in UTC and their textual forms.
//!
//! An instant is held as whole seconds since the Unix epoch and the
//! nanoseconds within that second, restricted to what `chrono` can
//! represent. The text of an instant is produced by `chrono`.
use vstd::prelude::*;

verus! {

/// The earliest second `chrono` can represent (-262143-01-01T00:00:00Z).
pub const MIN_SECS: i64 = -8334601228800;

/// The latest second `chrono` can represent (+262142-12-31T23:59:59Z).
pub const MAX_SECS: i64 = 8210266876799;

/// The first second of the year 0 (0000-01-01T00:00:00Z).
pub const YEAR_0_SECS: i64 = -62167219200;

/// The first second of the year 10000 (10000-01-01T00:00:00Z).
pub const YEAR_10000_SECS: i64 = 253402300800;

/// Whether `chrono` represents the instant `secs` seconds and `nanos`
/// nanoseconds after the Unix epoch. Nanoseconds from one billion on mark a
/// leap second and are only allowed in the last second of a minute.
pub open spec fn is_instant(secs: int, nanos: int) -> bool {
    &&& MIN_SECS <= secs <= MAX_SECS
    &&& 0 <= nanos
    &&& (nanos < 1_000_000_000 || (nanos < 2_000_000_000 && secs % 60 == 59))
}

/// Whether the instant falls in the years 0 through 9999, the only years
/// that RFC 2822 dates can express.
pub open spec fn in_rfc2822_years(secs: int) -> bool {
    YEAR_0_SECS <= secs < YEAR_10000_SECS
}

/// Whether instant `a` is strictly later than instant `b`.
pub open spec fn is_later(a: (i64, u32), b: (i64, u32)) -> bool {
    a.0 > b.0 || (a.0 == b.0 && a.1 > b.1)
}

/// The format of a date alone, such as `2026-07-19`.
pub const DAY_FORMAT: &'static str = "%Y-%m-%d";

/// The format of a date and time to the minute, such as `2026-07-19 12:00 UTC`.
pub const MINUTE_FORMAT: &'static str = "%Y-%m-%d %H:%M UTC";

/// The text that `chrono`'s `DateTime::to_rfc2822` gives for the instant.
pub uninterp spec fn rfc2822_text(secs: i64, nanos: u32) -> Seq<char>;

/// The text that `chrono`'s `DateTime::to_rfc3339_opts` gives for the
/// instant with whole seconds and `Z` for UTC.
pub uninterp spec fn rfc3339_text(secs: i64, nanos: u32) -> Seq<char>;

/// The text that `chrono`'s `DateTime::format` gives for the instant and the
/// format string `fmt`.
pub uninterp spec fn formatted_text(secs: i64, nanos: u32, fmt: Seq<char>) -> Seq<char>;

/// Calls `chrono::DateTime::to_rfc2822` on the UTC instant. The contract
/// claims only that the text is a function of the instant; `chrono` panics
/// outside the years 0 through 9999, which `requires` leaves out.
#[verifier::external_body]
fn chrono_rfc2822(secs: i64, nanos: u32) -> (r: String)
    requires
        is_instant(secs as int, nanos as int),
        in_rfc2822_years(secs as int),
    ensures
        r@ == rfc2822_text(secs, nanos),
{
    chrono::DateTime::from_timestamp(secs, nanos).unwrap().to_rfc2822()
}

/// Calls `chrono::DateTime::to_rfc3339_opts(SecondsFormat::Secs, true)` on
/// the UTC instant. The contract claims only that the text is a function of
/// the instant.
#[verifier::external_body]
fn chrono_rfc3339(secs: i64, nanos: u32) -> (r: String)
    requires
        is_instant(secs as int, nanos as int),
    ensures
        r@ == rfc3339_text(secs, nanos),
{
    chrono::DateTime::from_timestamp(secs, nanos).unwrap().to_rfc3339_opts(
        chrono::SecondsFormat::Secs,
        true,
    )
}

/// Calls `chrono::DateTime::format` on the UTC instant and renders the
/// result with `to_string`. The contract claims only that the text is a
/// function of the instant and the format; the format is one of the two that
/// this library uses, for which rendering cannot fail.
#[verifier::external_body]
fn chrono_format(secs: i64, nanos: u32, fmt: &str) -> (r: String)
    requires
        is_instant(secs as int, nanos as int),
        fmt@ == DAY_FORMAT@ || fmt@ == MINUTE_FORMAT@,
    ensures
        r@ == formatted_text(secs, nanos, fmt@),
{
    chrono::DateTime::from_timestamp(secs, nanos).unwrap().format(fmt).to_string()
}

/// An instant in UTC that `chrono` can represent.
#[derive(Clone, Copy, Debug)]
pub struct Timestamp {
    secs: i64,
    nanos: u32,
}

impl View for Timestamp {
    type V = (i64, u32);

    closed spec fn view(&self) -> (i64, u32) {
        (self.secs, self.nanos)
    }
}

impl Timestamp {
    #[verifier::type_invariant]
    spec fn inv(self) -> bool {
        is_instant(self.secs as int, self.nanos as int)
    }

    /// The instant `secs` seconds and `nanos` nanoseconds after the Unix
    /// epoch, if `chrono` can represent it.
    pub fn new(secs: i64, nanos: u32) -> (r: Option<Timestamp>)
        ensures
            r is Some <==> is_instant(secs as int, nanos as int),
            r matches Some(t) ==> t@ == (secs, nanos),
    {
        let in_minute = match secs.checked_rem_euclid(60) {
            Some(r) => r,
            None => 0,
        };
        if MIN_SECS <= secs && secs <= MAX_SECS && (nanos < 1_000_000_000 || (nanos
            < 2_000_000_000 && in_minute == 59)) {
            Some(Timestamp { secs, nanos })
        } else {
            None
        }
    }

    /// The Unix epoch, 1970-01-01T00:00:00Z.
    pub fn epoch() -> (t: Timestamp)
        ensures
            t@ == (0i64, 0u32),
    {
        Timestamp { secs: 0, nanos: 0 }
    }

    /// Whole seconds since the Unix epoch.
    pub fn secs(&self) -> (r: i64)
        ensures
            r == self@.0,
    {
        self.secs
    }

    /// Nanoseconds within the second.
    pub fn nanos(&self) -> (r: u32)
        ensures
            r == self@.1,
    {
        self.nanos
    }

    /// Whether this instant is strictly later than `other`.
    pub fn is_later_than(&self, other: &Timestamp) -> (r: bool)
        ensures
            r == is_later(self@, other@),
    {
        self.secs > other.secs || (self.secs == other.secs && self.nanos > other.nanos)
    }

    /// Whether this instant can be written as an RFC 2822 date.
    pub fn has_rfc2822(&self) -> (r: bool)
        ensures
            r == in_rfc2822_years(self@.0 as int),
    {
        YEAR_0_SECS <= self.secs && self.secs < YEAR_10000_SECS
    }

    /// The instant as an RFC 2822 date, such as `Tue, 21 Jul 2026 12:01:00 +0000`.
    pub fn rfc2822(&self) -> (r: String)
        requires
            in_rfc2822_years(self@.0 as int),
        ensures
            r@ == rfc2822_text(self@.0, self@.1),
    {
        proof {
            use_type_invariant(self);
        }
        chrono_rfc2822(self.secs, self.nanos)
    }

    /// The instant as an RFC 3339 date in whole seconds with `Z`, such as
    /// `2026-07-21T12:01:00Z`.
    pub fn rfc3339(&self) -> (r: String)
        ensures
            r@ == rfc3339_text(self@.0, self@.1),
    {
        proof {
            use_type_invariant(self);
        }
        chrono_rfc3339(self.secs, self.nanos)
    }

    /// The date alone, such as `2026-07-21`.
    pub fn day(&self) -> (r: String)
        ensures
            r@ == formatted_text(self@.0, self@.1, DAY_FORMAT@),
    {
        proof {
            use_type_invariant(self);
        }
        chrono_format(self.secs, self.nanos, DAY_FORMAT)
    }

    /// The date and time to the minute, such as `2026-07-21 12:01 UTC`.
    pub fn minute(&self) -> (r: String)
        ensures
            r@ == formatted_text(self@.0, self@.1, MINUTE_FORMAT@),
    {
        proof {
            use_type_invariant(self);
        }
        chrono_format(self.secs, self.nanos, MINUTE_FORMAT)
    }
}

} // verus!
