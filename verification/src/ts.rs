//! Timestamp types and formatting utilities.
//!
//! A [`DateTime`] is an instant (Unix seconds and nanoseconds) with the UTC
//! offset it is shown in, either the local one or UTC.  The `time` crate
//! formats it; the local offset comes from `tzdb`, with UTC as fallback.
use vstd::prelude::*;

use time::format_description::well_known::Rfc2822;
use time::format_description::well_known::Rfc3339;
use time::OffsetDateTime;
use time::UtcOffset;
use vstd::std_specs::cmp::PartialEqSpecImpl;

use crate::text::push_str;
use crate::text::string_of;

verus! {

#[verifier::external_type_specification]
#[verifier::external_body]
pub struct ExComponentRange(time::error::ComponentRange);

#[verifier::external_type_specification]
#[verifier::external_body]
pub struct ExNowError(tzdb::now::NowError);

#[verifier::external_type_specification]
#[verifier::external_body]
pub struct ExOffsetDateTime(time::OffsetDateTime);

/// Smallest Unix timestamp that `time` represents (-9999-01-01T00:00:00Z).
pub const MIN_UNIX_TIMESTAMP: i64 = -377705116800i64;

/// Largest Unix timestamp that `time` represents (9999-12-31T23:59:59Z).
pub const MAX_UNIX_TIMESTAMP: i64 = 253402300799i64;

/// Largest magnitude of a UTC offset in seconds (25:59:59).
pub const MAX_OFFSET_SECONDS: i32 = 93599i32;

/// Local seconds of 0000-01-01T00:00:00, the first instant RFC 3339 can show.
pub const RFC3339_MIN_LOCAL: i64 = -62167219200i64;

/// Local seconds of 1900-01-01T00:00:00, the first instant RFC 2822 can show.
pub const RFC2822_MIN_LOCAL: i64 = -2208988800i64;

pub open spec fn valid_unix(t: int) -> bool {
    MIN_UNIX_TIMESTAMP <= t <= MAX_UNIX_TIMESTAMP
}

pub open spec fn valid_offset(s: int) -> bool {
    -MAX_OFFSET_SECONDS <= s <= MAX_OFFSET_SECONDS
}

/// An instant that `time` can show in the given offset: the instant and
/// the local date-time both lie in the years -9999 to 9999.
pub open spec fn valid_moment(unix: int, nanosecond: int, offset: int) -> bool {
    &&& valid_unix(unix)
    &&& 0 <= nanosecond < 1_000_000_000
    &&& valid_offset(offset)
    &&& valid_unix(unix + offset)
}

/// `time` formats RFC 3339 for a local year from 0 to 9999, an offset of
/// at most 23 whole hours, and an offset without seconds.
pub open spec fn rfc3339_allows(unix: int, offset: int) -> bool {
    &&& unix + offset >= RFC3339_MIN_LOCAL
    &&& -86399 <= offset <= 86399
    &&& offset % 60 == 0
}

/// `time` formats RFC 2822 for a local year from 1900 and an offset
/// without seconds.
pub open spec fn rfc2822_allows(unix: int, offset: int) -> bool {
    &&& unix + offset >= RFC2822_MIN_LOCAL
    &&& offset % 60 == 0
}

/// The text `OffsetDateTime::format(&Rfc3339)` gives for an instant shown
/// in an offset.
pub uninterp spec fn rfc3339_text(unix: i64, nanosecond: u32, offset_seconds: i32) -> Seq<char>;

/// The text `OffsetDateTime::format(&Rfc2822)` gives for an instant shown
/// in an offset.
pub uninterp spec fn rfc2822_text(unix: i64, nanosecond: u32, offset_seconds: i32) -> Seq<char>;

/// The format description of the human-readable form of a date-time,
/// `YYYY-MM-DD HH:MM:SS +HH:MM`, in the syntax of
/// `time::format_description::parse`.
pub const HUMAN_DESCRIPTION: &'static str = "[year]-[month]-[day] [hour]:[minute]:[second] [offset_hour sign:mandatory]:[offset_minute]";

/// The text `OffsetDateTime::format` gives for an instant shown in an
/// offset, with the format description parsed from `description`.
pub uninterp spec fn human_text(
    unix: i64,
    nanosecond: u32,
    offset_seconds: i32,
    description: Seq<char>,
) -> Seq<char>;

/// The text `OffsetDateTime::format` gives for `dt`, with the format
/// description parsed from `description`.
pub uninterp spec fn offset_human_text(dt: OffsetDateTime, description: Seq<char>) -> Seq<char>;

/// The text that `Debug` on `OffsetDateTime` (its `Display`) gives for an
/// instant shown in an offset.
pub uninterp spec fn debug_text_of(unix: i64, nanosecond: u32, offset_seconds: i32) -> Seq<char>;

/// Calls `OffsetDateTime::format(&Rfc3339)` on the instant `unix` seconds
/// plus `nanosecond` after the epoch, shown in the offset `offset_seconds`
/// (built with `from_unix_timestamp`, `replace_nanosecond`,
/// `UtcOffset::from_whole_seconds` and `to_offset`).  Claims that the text
/// depends on these three values alone; `requires` keeps out every input on
/// which one of these calls fails or panics.
#[verifier::external_body]
fn format_rfc3339(unix: i64, nanosecond: u32, offset_seconds: i32) -> (r: String)
    requires
        valid_moment(unix as int, nanosecond as int, offset_seconds as int),
        rfc3339_allows(unix as int, offset_seconds as int),
    ensures
        r@ == rfc3339_text(unix, nanosecond, offset_seconds),
{
    OffsetDateTime::from_unix_timestamp(unix).unwrap().replace_nanosecond(nanosecond).unwrap().to_offset(
        UtcOffset::from_whole_seconds(offset_seconds).unwrap(),
    ).format(&Rfc3339).unwrap()
}

/// Calls `OffsetDateTime::format(&Rfc2822)` on the instant, built as for
/// `format_rfc3339`.  Claims that the text depends on these three values
/// alone; `requires` keeps out every input on which a call fails.
#[verifier::external_body]
fn format_rfc2822(unix: i64, nanosecond: u32, offset_seconds: i32) -> (r: String)
    requires
        valid_moment(unix as int, nanosecond as int, offset_seconds as int),
        rfc2822_allows(unix as int, offset_seconds as int),
    ensures
        r@ == rfc2822_text(unix, nanosecond, offset_seconds),
{
    OffsetDateTime::from_unix_timestamp(unix).unwrap().replace_nanosecond(nanosecond).unwrap().to_offset(
        UtcOffset::from_whole_seconds(offset_seconds).unwrap(),
    ).format(&Rfc2822).unwrap()
}

/// Calls `OffsetDateTime::format` with the description that
/// `format_description::parse` makes of `description`, on the instant
/// built as for `format_rfc3339`.  Claims that the text depends on these
/// values alone.  `requires` admits only `HUMAN_DESCRIPTION`, which parses,
/// and none of whose components fails for a valid moment.
#[verifier::external_body]
#[allow(deprecated)]
fn format_human(unix: i64, nanosecond: u32, offset_seconds: i32, description: &str) -> (r: String)
    requires
        valid_moment(unix as int, nanosecond as int, offset_seconds as int),
        description@ == HUMAN_DESCRIPTION@,
    ensures
        r@ == human_text(unix, nanosecond, offset_seconds, description@),
{
    let items = time::format_description::parse(description).unwrap();
    OffsetDateTime::from_unix_timestamp(unix).unwrap().replace_nanosecond(nanosecond).unwrap().to_offset(
        UtcOffset::from_whole_seconds(offset_seconds).unwrap(),
    ).format(&items).unwrap()
}

/// `format!("{:?}", ..)` of the `OffsetDateTime` for the instant `unix`
/// seconds plus `nanosecond` after the epoch, shown in the offset
/// `offset_seconds`, built as for `format_rfc3339`.  Claims that the text
/// depends on these three values alone.
#[verifier::external_body]
fn format_debug(unix: i64, nanosecond: u32, offset_seconds: i32) -> (r: String)
    requires
        valid_moment(unix as int, nanosecond as int, offset_seconds as int),
    ensures
        r@ == debug_text_of(unix, nanosecond, offset_seconds),
{
    let odt = OffsetDateTime::from_unix_timestamp(unix).unwrap().replace_nanosecond(
        nanosecond,
    ).unwrap().to_offset(UtcOffset::from_whole_seconds(offset_seconds).unwrap());
    format!("{odt:?}")
}

/// `UtcOffset::from_whole_seconds`, kept for its range check: `Ok` exactly
/// for offsets of at most 25:59:59 either way (its `WholeSeconds` range).
#[verifier::external_body]
fn check_utc_offset(seconds: i32) -> (r: Result<(), time::error::ComponentRange>)
    ensures
        r is Ok <==> valid_offset(seconds as int),
{
    match UtcOffset::from_whole_seconds(seconds) {
        Ok(_) => Ok(()),
        Err(e) => Err(e),
    }
}

/// `OffsetDateTime::from_unix_timestamp`, kept for its range check: `Ok`
/// exactly for timestamps from -9999-01-01 to 9999-12-31 (its `Timestamp`
/// range, without the `large-dates` feature).
#[verifier::external_body]
fn check_unix_timestamp(timestamp: i64) -> (r: Result<(), time::error::ComponentRange>)
    ensures
        r is Ok <==> valid_unix(timestamp as int),
{
    match OffsetDateTime::from_unix_timestamp(timestamp) {
        Ok(_) => Ok(()),
        Err(e) => Err(e),
    }
}

/// `tzdb::now::local()`: the current Unix time and the UTC offset in
/// seconds of the local time zone (`unix_time()` and
/// `local_time_type().ut_offset()`).  Both depend on the clock and the
/// system's time zone; nothing is claimed of them.
#[verifier::external_body]
fn local_clock() -> (r: Result<(i64, i32), tzdb::now::NowError>) {
    match tzdb::now::local() {
        Ok(t) => Ok((t.unix_time(), t.local_time_type().ut_offset())),
        Err(e) => Err(e),
    }
}

/// `OffsetDateTime::now_utc()`: the current Unix time and its nanosecond.
/// Claims only what holds of every `OffsetDateTime` in UTC: the timestamp
/// lies in the supported range (the local date-time is the UTC one), and
/// the nanosecond is below one second.  The value depends on the clock.
#[verifier::external_body]
fn utc_clock() -> (r: (i64, u32))
    ensures
        valid_unix(r.0 as int),
        r.1 < 1_000_000_000,
{
    let now = OffsetDateTime::now_utc();
    (now.unix_timestamp(), now.nanosecond())
}

/// `dt.format` with the description that `format_description::parse`
/// makes of `description`.  Claims that the text depends on `dt` and the
/// description alone.  `requires` admits only `HUMAN_DESCRIPTION`, which
/// parses, and none of whose components fails for an `OffsetDateTime`
/// (every one of which lies in the supported range of years).
#[verifier::external_body]
#[allow(deprecated)]
fn format_human_offset_date_time(dt: &OffsetDateTime, description: &str) -> (r: String)
    requires
        description@ == HUMAN_DESCRIPTION@,
    ensures
        r@ == offset_human_text(*dt, description@),
{
    let items = time::format_description::parse(description).unwrap();
    dt.format(&items).unwrap()
}

/// An instant, with the UTC offset it is shown in.
#[derive(Clone, Copy, Debug)]
pub struct ZonedTime {
    unix_seconds: i64,
    nanosecond: u32,
    offset_seconds: i32,
}

impl ZonedTime {
    #[verifier::type_invariant]
    spec fn inv(self) -> bool {
        valid_moment(self.unix_seconds as int, self.nanosecond as int, self.offset_seconds as int)
    }

    /// Seconds since the Unix epoch.
    pub closed spec fn unix(self) -> i64 {
        self.unix_seconds
    }

    /// Nanoseconds within the second.
    pub closed spec fn nanos(self) -> u32 {
        self.nanosecond
    }

    /// Offset from UTC in seconds.
    pub closed spec fn offset(self) -> i32 {
        self.offset_seconds
    }
}

/// Why the local time could not be obtained.
#[derive(Debug)]
pub enum LocalTimeError {
    /// `tzdb` could not tell the local time.
    Now(tzdb::now::NowError),
    /// The offset or the timestamp is outside what `time` represents.
    Range(time::error::ComponentRange),
    /// The local date-time falls outside the years `time` represents.
    LocalOutOfRange,
}

/// 人类可读时间格式。
pub trait Format {
    fn human_format(&self) -> String;
}

/// 日期时间（本地或 UTC）。
#[derive(Clone, Copy, Debug)]
pub enum DateTime {
    /// Local timezone datetime.
    Local(ZonedTime),
    /// UTC datetime.
    Utc(ZonedTime),
}

/// 当前时间戳（优先本地时区，失败则回退 UTC）。
pub fn now_timestamp() -> (r: DateTime)
    ensures
        r is Utc ==> r.zoned().offset() == 0,
        r is Local ==> r.nanos() == 0,
{
    DateTime::now()
}

impl DateTime {
    /// The instant and offset, whichever the variant.
    pub open spec fn zoned(self) -> ZonedTime {
        match self {
            DateTime::Local(z) => z,
            DateTime::Utc(z) => z,
        }
    }

    pub open spec fn unix(self) -> i64 {
        self.zoned().unix()
    }

    pub open spec fn nanos(self) -> u32 {
        self.zoned().nanos()
    }

    pub open spec fn offset(self) -> i32 {
        self.zoned().offset()
    }

    /// Whether `to_rfc3339` can format this value.
    pub open spec fn rfc3339_ok(self) -> bool {
        rfc3339_allows(self.unix() as int, self.offset() as int)
    }

    /// Whether `to_rfc2822` can format this value.
    pub open spec fn rfc2822_ok(self) -> bool {
        rfc2822_allows(self.unix() as int, self.offset() as int)
    }

    /// The same instant (seconds and nanoseconds) and the same variant:
    /// what `==` compares, as `OffsetDateTime` compares instants whatever
    /// their offsets.
    pub open spec fn same_as(self, other: DateTime) -> bool {
        &&& (self is Local <==> other is Local)
        &&& self.unix() == other.unix()
        &&& self.nanos() == other.nanos()
    }

    /// 当前时间（优先本地，失败则 UTC）。
    ///
    /// The instant and offset come from the clock and the system's time
    /// zone: a local time has whole seconds, a UTC time offset zero.
    pub fn now() -> (r: Self)
        ensures
            r is Utc ==> r.zoned().offset() == 0,
            r is Local ==> r.nanos() == 0,
    {
        match Self::local_now() {
            Ok(d) => d,
            Err(e) => {
                let (unix, nanos) = utc_clock();
                Self::prefer_local(Err(e), unix, nanos)
            },
        }
    }

    /// The local time when it could be obtained, otherwise the UTC time
    /// `unix` seconds and `nanosecond` after the epoch.
    pub fn prefer_local(local: Result<Self, LocalTimeError>, unix: i64, nanosecond: u32) -> (r: Self)
        requires
            valid_unix(unix as int),
            nanosecond < 1_000_000_000,
        ensures
            local matches Ok(d) ==> r == d,
            local is Err ==> r is Utc && r.unix() == unix && r.nanos() == nanosecond && r.offset()
                == 0,
    {
        match local {
            Ok(d) => d,
            Err(_) => DateTime::Utc(ZonedTime { unix_seconds: unix, nanosecond, offset_seconds: 0 }),
        }
    }

    /// 本地当前时间（使用 tzdb）。
    pub fn local_now() -> (r: Result<Self, LocalTimeError>)
        ensures
            r matches Ok(d) ==> d is Local && d.nanos() == 0,
    {
        match local_clock() {
            Ok((unix, offset)) => Self::local_from_clock(unix, offset),
            Err(e) => Err(LocalTimeError::Now(e)),
        }
    }

    /// The local time for a clock reading of `unix` seconds in a time zone
    /// `offset` seconds from UTC: checks the offset, then the timestamp,
    /// then that the local date-time is representable.
    pub fn local_from_clock(unix: i64, offset: i32) -> (r: Result<Self, LocalTimeError>)
        ensures
            r is Ok <==> valid_moment(unix as int, 0, offset as int),
            r matches Ok(d) ==> d is Local && d.unix() == unix && d.nanos() == 0 && d.offset()
                == offset,
            r matches Err(e) ==> (!valid_offset(offset as int) ==> e is Range) && (valid_offset(
                offset as int,
            ) && !valid_unix(unix as int) ==> e is Range) && (valid_offset(offset as int)
                && valid_unix(unix as int) ==> e is LocalOutOfRange),
    {
        match check_utc_offset(offset) {
            Ok(()) => {},
            Err(e) => {
                return Err(LocalTimeError::Range(e));
            },
        }
        match check_unix_timestamp(unix) {
            Ok(()) => {},
            Err(e) => {
                return Err(LocalTimeError::Range(e));
            },
        }
        let local = unix as i128 + offset as i128;
        if local < MIN_UNIX_TIMESTAMP as i128 || local > MAX_UNIX_TIMESTAMP as i128 {
            return Err(LocalTimeError::LocalOutOfRange);
        }
        Ok(DateTime::Local(ZonedTime { unix_seconds: unix, nanosecond: 0, offset_seconds: offset }))
    }

    /// 将 Unix 时间戳转为 UTC 时间。
    pub fn timestamp_to_utc(timestamp: i64) -> (r: Self)
        requires
            valid_unix(timestamp as int),
        ensures
            r is Utc,
            r.unix() == timestamp,
            r.nanos() == 0,
            r.offset() == 0,
    {
        DateTime::Utc(ZonedTime { unix_seconds: timestamp, nanosecond: 0, offset_seconds: 0 })
    }

    /// 将 Unix 时间戳转为指定偏移（分钟）的本地时间。
    pub fn timestamp_to_local(timestamp: i64, offset_minutes: i32) -> (r: Self)
        requires
            valid_unix(timestamp as int),
            valid_offset(offset_minutes * 60),
            valid_unix(timestamp + offset_minutes * 60),
        ensures
            r is Local,
            r.unix() == timestamp,
            r.nanos() == 0,
            r.offset() == offset_minutes * 60,
    {
        DateTime::Local(
            ZonedTime {
                unix_seconds: timestamp,
                nanosecond: 0,
                offset_seconds: offset_minutes * 60,
            },
        )
    }

    /// Whether `timestamp_to_local` accepts `timestamp` and
    /// `offset_minutes`: both in range, and the local time too.
    pub fn local_time_valid(timestamp: i64, offset_minutes: i32) -> (r: bool)
        ensures
            r == (valid_unix(timestamp as int) && valid_offset(offset_minutes * 60) && valid_unix(
                timestamp + offset_minutes * 60,
            )),
    {
        let offset = offset_minutes as i64 * 60;
        let local = timestamp as i128 + offset as i128;
        MIN_UNIX_TIMESTAMP <= timestamp && timestamp <= MAX_UNIX_TIMESTAMP && -(MAX_OFFSET_SECONDS
            as i64) <= offset && offset <= MAX_OFFSET_SECONDS as i64 && MIN_UNIX_TIMESTAMP as i128
            <= local && local <= MAX_UNIX_TIMESTAMP as i128
    }

    /// Whether `to_rfc3339` can format this value.
    pub fn rfc3339_formattable(&self) -> (r: bool)
        ensures
            r == self.rfc3339_ok(),
    {
        let z = match self {
            DateTime::Local(z) => z,
            DateTime::Utc(z) => z,
        };
        proof {
            use_type_invariant(z);
        }
        let local = z.unix_seconds as i128 + z.offset_seconds as i128;
        local >= RFC3339_MIN_LOCAL as i128 && -86399 <= z.offset_seconds && z.offset_seconds
            <= 86399 && z.offset_seconds % 60 == 0
    }

    /// Whether `to_rfc2822` can format this value.
    pub fn rfc2822_formattable(&self) -> (r: bool)
        ensures
            r == self.rfc2822_ok(),
    {
        let z = match self {
            DateTime::Local(z) => z,
            DateTime::Utc(z) => z,
        };
        proof {
            use_type_invariant(z);
        }
        let local = z.unix_seconds as i128 + z.offset_seconds as i128;
        local >= RFC2822_MIN_LOCAL as i128 && z.offset_seconds % 60 == 0
    }

    /// RFC 2822 格式字符串。
    pub fn to_rfc2822(self) -> (r: String)
        requires
            self.rfc2822_ok(),
        ensures
            r@ == rfc2822_text(self.unix(), self.nanos(), self.offset()),
    {
        let z = match self {
            DateTime::Local(z) => z,
            DateTime::Utc(z) => z,
        };
        proof {
            use_type_invariant(z);
        }
        format_rfc2822(z.unix_seconds, z.nanosecond, z.offset_seconds)
    }

    /// RFC 3339 格式字符串。
    pub fn to_rfc3339(self) -> (r: String)
        requires
            self.rfc3339_ok(),
        ensures
            r@ == rfc3339_text(self.unix(), self.nanos(), self.offset()),
    {
        let z = match self {
            DateTime::Local(z) => z,
            DateTime::Utc(z) => z,
        };
        proof {
            use_type_invariant(z);
        }
        format_rfc3339(z.unix_seconds, z.nanosecond, z.offset_seconds)
    }

    /// The text of `{:?}`: the name of the variant around the `Debug`
    /// text of the `OffsetDateTime`, as in `Local(2024-01-02 3:04:05.0 +08:00:00)`.
    pub fn debug_text(&self) -> (r: String)
        ensures
            r@ == debug_text(*self),
    {
        let (z, name) = match self {
            DateTime::Local(z) => (z, "Local("),
            DateTime::Utc(z) => (z, "Utc("),
        };
        proof {
            use_type_invariant(z);
        }
        let mut r = string_of(name);
        let inner = format_debug(z.unix_seconds, z.nanosecond, z.offset_seconds);
        push_str(&mut r, inner.as_str());
        push_str(&mut r, ")");
        r
    }
}

/// The text of `{:?}` on a date-time.
pub open spec fn debug_text(d: DateTime) -> Seq<char> {
    (if d is Local {
        "Local("@
    } else {
        "Utc("@
    }) + debug_text_of(d.unix(), d.nanos(), d.offset()) + ")"@
}

/// Law: date-times compare by instant, as `OffsetDateTime` does: the same
/// Unix time shown in any two local offsets compares equal, two UTC times
/// compare equal exactly when their instants do, and a local time never
/// equals a UTC time.
pub proof fn law_compare_by_instant(a: DateTime, b: DateTime)
    ensures
        (a is Local && b is Local && a.unix() == b.unix() && a.nanos() == b.nanos()) ==> a.same_as(
            b,
        ),
        (a is Utc && b is Utc) ==> (a.same_as(b) <==> (a.unix() == b.unix() && a.nanos()
            == b.nanos())),
        (a is Local && b is Utc) ==> !a.same_as(b),
{
}

impl Format for DateTime {
    fn human_format(&self) -> (r: String)
        ensures
            r@ == human_text(self.unix(), self.nanos(), self.offset(), HUMAN_DESCRIPTION@),
    {
        let z = match self {
            DateTime::Local(z) => z,
            DateTime::Utc(z) => z,
        };
        proof {
            use_type_invariant(z);
        }
        format_human(z.unix_seconds, z.nanosecond, z.offset_seconds, HUMAN_DESCRIPTION)
    }
}

/// Human-readable format: `"YYYY-MM-DD HH:MM:SS +HH:MM"`.
impl Format for OffsetDateTime {
    fn human_format(&self) -> (r: String)
        ensures
            r@ == offset_human_text(*self, HUMAN_DESCRIPTION@),
    {
        format_human_offset_date_time(self, HUMAN_DESCRIPTION)
    }
}

impl PartialEq for DateTime {
    fn eq(&self, other: &Self) -> (r: bool) {
        match (self, other) {
            (DateTime::Local(a), DateTime::Local(b)) => a.unix_seconds == b.unix_seconds
                && a.nanosecond == b.nanosecond,
            (DateTime::Utc(a), DateTime::Utc(b)) => a.unix_seconds == b.unix_seconds
                && a.nanosecond == b.nanosecond,
            _ => false,
        }
    }
}

impl PartialEqSpecImpl for DateTime {
    open spec fn obeys_eq_spec() -> bool {
        true
    }

    open spec fn eq_spec(&self, other: &Self) -> bool {
        self.same_as(*other)
    }
}

impl Eq for DateTime {

}

impl Default for DateTime {
    fn default() -> (r: Self)
        ensures
            r is Utc ==> r.zoned().offset() == 0,
    {
        Self::now()
    }
}

} // verus!
