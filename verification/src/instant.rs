use crate::text::{trim, trim_spec};
use vstd::prelude::*;

verus! {

/// A UTC instant: seconds since 1970-01-01T00:00:00Z that are not leap
/// seconds, and the nanoseconds past that second (`1_000_000_000` or more
/// inside a leap second), as chrono's `timestamp` and
/// `timestamp_subsec_nanos` give them.
#[derive(Clone, Copy, Debug, PartialEq, Eq, Structural)]
pub struct Instant {
    pub secs: i64,
    pub nanos: u32,
}

/// The first second of chrono's range (1 January of year -262143, UTC).
pub const MIN_TIMESTAMP: i64 = -8334601228800;

/// The last second of chrono's range (31 December of year 262142, UTC).
pub const MAX_TIMESTAMP: i64 = 8210266876799;

/// The first second of year 0 (UTC).
pub const YEAR_0_TIMESTAMP: i64 = -62167219200;

/// The last second of year 9999 (UTC).
pub const YEAR_9999_END_TIMESTAMP: i64 = 253402300799;

impl Instant {
    /// The pair chrono reports for this instant.
    pub open spec fn pair(self) -> (i64, u32) {
        (self.secs, self.nanos)
    }

    /// The seconds lie in chrono's range and the nanoseconds are below two
    /// seconds: what every chrono date-time satisfies.
    pub open spec fn in_range(self) -> bool {
        &&& MIN_TIMESTAMP <= self.secs <= MAX_TIMESTAMP
        &&& self.nanos < 2_000_000_000
    }

    /// `DateTime::from_timestamp(secs, nanos)` accepts the pair: the
    /// seconds lie in chrono's range, the nanoseconds are below two seconds,
    /// and a leap second (nanoseconds of one second or more) falls on the
    /// last second of a minute.
    pub open spec fn representable(self) -> bool {
        &&& self.in_range()
        &&& (self.nanos >= 1_000_000_000 ==> (self.secs as int) % 60 == 59)
    }

    /// The instant comes strictly before `other`.
    pub open spec fn before(self, other: Instant) -> bool {
        ||| self.secs < other.secs
        ||| (self.secs == other.secs && self.nanos < other.nanos)
    }

    /// Whether this instant comes strictly before `other`, as `<` on chrono
    /// date-times orders them.
    pub fn is_before(&self, other: &Instant) -> (r: bool)
        ensures
            r == self.before(*other),
    {
        self.secs < other.secs || (self.secs == other.secs && self.nanos < other.nanos)
    }

    /// The instant `delta` seconds earlier, as subtracting a whole-second
    /// `TimeDelta` from a chrono date-time gives it.
    pub fn minus_seconds(&self, delta: i64) -> (r: Instant)
        requires
            self.in_range(),
            0 <= delta <= 1_000_000_000,
        ensures
            r.secs == self.secs - delta,
            r.nanos == self.nanos,
    {
        Instant { secs: self.secs - delta, nanos: self.nanos }
    }
}

/// The view of an optional instant.
pub open spec fn instant_pair(o: Option<Instant>) -> Option<(i64, u32)> {
    match o {
        Some(i) => Some(i.pair()),
        None => None,
    }
}

/// What `DateTime::parse_from_rfc3339` reads in `text`, as (timestamp,
/// sub-second nanoseconds) of the UTC instant; `None` where it reports an
/// error.
pub uninterp spec fn rfc3339_parse(text: Seq<char>) -> Option<(i64, u32)>;

/// What `DateTime::parse_from_rfc2822` reads in `text`, as (timestamp,
/// sub-second nanoseconds) of the UTC instant; `None` where it reports an
/// error.
pub uninterp spec fn rfc2822_parse(text: Seq<char>) -> Option<(i64, u32)>;

/// What `NaiveDateTime::parse_from_str(text, format)` reads, as (timestamp,
/// sub-second nanoseconds) of that wall-clock time taken as UTC; `None` where
/// it reports an error.
pub uninterp spec fn naive_parse(text: Seq<char>, format: Seq<char>) -> Option<(i64, u32)>;

/// The text `DateTime::<Utc>::to_rfc3339` writes for the instant.
pub uninterp spec fn rfc3339_text(secs: i64, nanos: u32) -> Seq<char>;

/// The text `DateTime::<Utc>::to_rfc2822` writes for the instant.
pub uninterp spec fn rfc2822_text(secs: i64, nanos: u32) -> Seq<char>;

/// The text `DateTime::<Utc>::format(format).to_string()` writes for the
/// instant.
pub uninterp spec fn strftime_text(secs: i64, nanos: u32, format: Seq<char>) -> Seq<char>;

/// Calls `chrono::DateTime::parse_from_rfc3339` and converts the parsed
/// date-time to its UTC timestamp and sub-second nanoseconds. Claimed: the
/// result is the named `rfc3339_parse` of the text, and a parsed instant lies
/// in chrono's range (every chrono date-time does).
#[verifier::external_body]
fn chrono_parse_rfc3339(text: &str) -> (r: Option<Instant>)
    ensures
        instant_pair(r) == rfc3339_parse(text@),
        r matches Some(i) ==> i.in_range(),
{
    match chrono::DateTime::parse_from_rfc3339(text) {
        Ok(dt) => Some(Instant { secs: dt.timestamp(), nanos: dt.timestamp_subsec_nanos() }),
        Err(_) => None,
    }
}

/// Calls `chrono::DateTime::parse_from_rfc2822` and converts the parsed
/// date-time to its UTC timestamp and sub-second nanoseconds. Claimed: the
/// result is the named `rfc2822_parse` of the text, and a parsed instant lies
/// in chrono's range.
#[verifier::external_body]
fn chrono_parse_rfc2822(text: &str) -> (r: Option<Instant>)
    ensures
        instant_pair(r) == rfc2822_parse(text@),
        r matches Some(i) ==> i.in_range(),
{
    match chrono::DateTime::parse_from_rfc2822(text) {
        Ok(dt) => Some(Instant { secs: dt.timestamp(), nanos: dt.timestamp_subsec_nanos() }),
        Err(_) => None,
    }
}

/// Calls `chrono::NaiveDateTime::parse_from_str` and converts the wall-clock
/// time to the timestamp it has when taken as UTC (`and_utc`). Claimed: the
/// result is the named `naive_parse` of the text and format, and it lies in
/// chrono's range.
#[verifier::external_body]
fn chrono_parse_naive(text: &str, format: &str) -> (r: Option<Instant>)
    ensures
        instant_pair(r) == naive_parse(text@, format@),
        r matches Some(i) ==> i.in_range(),
{
    match chrono::NaiveDateTime::parse_from_str(text, format) {
        Ok(ndt) => {
            let dt = ndt.and_utc();
            Some(Instant { secs: dt.timestamp(), nanos: dt.timestamp_subsec_nanos() })
        },
        Err(_) => None,
    }
}

/// Builds the chrono UTC date-time of the instant with
/// `DateTime::from_timestamp` and writes it with `to_rfc3339`. Claimed: a
/// text comes back exactly when `from_timestamp` accepts the pair (see
/// `Instant::representable`), and it is the named `rfc3339_text`.
#[verifier::external_body]
fn chrono_to_rfc3339(at: &Instant) -> (r: Option<String>)
    ensures
        r is Some <==> at.representable(),
        r matches Some(t) ==> t@ == rfc3339_text(at.secs, at.nanos),
{
    match chrono::DateTime::from_timestamp(at.secs, at.nanos) {
        Some(dt) => Some(dt.to_rfc3339()),
        None => None,
    }
}

/// Builds the chrono UTC date-time of the instant with
/// `DateTime::from_timestamp` and writes it with `to_rfc2822`, which panics
/// outside years 0 to 9999; the `requires` keeps the instant inside them.
/// Claimed: a text comes back exactly when `from_timestamp` accepts the pair,
/// and it is the named `rfc2822_text`.
#[verifier::external_body]
fn chrono_to_rfc2822(at: &Instant) -> (r: Option<String>)
    requires
        YEAR_0_TIMESTAMP <= at.secs <= YEAR_9999_END_TIMESTAMP,
    ensures
        r is Some <==> at.representable(),
        r matches Some(t) ==> t@ == rfc2822_text(at.secs, at.nanos),
{
    match chrono::DateTime::from_timestamp(at.secs, at.nanos) {
        Some(dt) => Some(dt.to_rfc2822()),
        None => None,
    }
}

/// The pattern `year-month-day hour:minute:second`, used both to read dates
/// and to write the time of the last run.
pub open spec fn date_time_pattern() -> Seq<char> {
    "%Y-%m-%d %H:%M:%S"@
}

/// Builds the chrono UTC date-time of the instant with
/// `DateTime::from_timestamp` and writes it with `format(pattern)`. The
/// `requires` admits only the pattern `%Y-%m-%d %H:%M:%S`, whose items chrono
/// always renders (another pattern could make `to_string` panic). Claimed: a
/// text comes back exactly when `from_timestamp` accepts the pair, and it is
/// the named `strftime_text`.
#[verifier::external_body]
fn chrono_format(at: &Instant, pattern: &str) -> (r: Option<String>)
    requires
        pattern@ == date_time_pattern(),
    ensures
        r is Some <==> at.representable(),
        r matches Some(t) ==> t@ == strftime_text(at.secs, at.nanos, pattern@),
{
    match chrono::DateTime::from_timestamp(at.secs, at.nanos) {
        Some(dt) => Some(dt.format(pattern).to_string()),
        None => None,
    }
}

/// Reads the clock with `chrono::Utc::now` (which panics when the system
/// clock is set before 1970). Claimed of every reading: `from_timestamp`
/// accepted it (chrono builds it that way, and unwraps) and it has no
/// leap-second nanoseconds (they come from a `Duration`'s sub-second part).
/// Which instant comes back is not stated: it is the time.
#[verifier::external_body]
pub(crate) fn utc_now() -> (r: Instant)
    ensures
        r.representable(),
        r.nanos < 1_000_000_000,
{
    let now = chrono::Utc::now();
    Instant { secs: now.timestamp(), nanos: now.timestamp_subsec_nanos() }
}

} // verus!

verus! {

/// The pattern `year-month-dayThour:minute:second`.
pub open spec fn iso_date_time_pattern() -> Seq<char> {
    "%Y-%m-%dT%H:%M:%S"@
}

/// The first of the four that is present.
pub open spec fn first_present<T>(a: Option<T>, b: Option<T>, c: Option<T>, d: Option<T>) -> Option<
    T,
> {
    if a is Some {
        a
    } else if b is Some {
        b
    } else if c is Some {
        c
    } else {
        d
    }
}

/// Picks the first reading that succeeded, in the order the readings were
/// tried.
pub fn first_parsed(
    a: Option<Instant>,
    b: Option<Instant>,
    c: Option<Instant>,
    d: Option<Instant>,
) -> (r: Option<Instant>)
    ensures
        r == first_present(a, b, c, d),
{
    if a.is_some() {
        a
    } else if b.is_some() {
        b
    } else if c.is_some() {
        c
    } else {
        d
    }
}

/// The instant a date text denotes: the trimmed text read as RFC 3339, else as
/// RFC 2822, else as `%Y-%m-%d %H:%M:%S` in UTC, else as
/// `%Y-%m-%dT%H:%M:%S` in UTC.
pub open spec fn date_from_text(s: Seq<char>) -> Option<(i64, u32)> {
    let t = trim_spec(s);
    first_present(
        rfc3339_parse(t),
        rfc2822_parse(t),
        naive_parse(t, date_time_pattern()),
        naive_parse(t, iso_date_time_pattern()),
    )
}

/// Reads a date text in any of the formats the bot stores or meets; `None`
/// where none of them reads it.
pub fn parse_date(s: &str) -> (r: Option<Instant>)
    ensures
        instant_pair(r) == date_from_text(s@),
        r matches Some(i) ==> i.in_range(),
{
    let t = trim(s);
    let a = chrono_parse_rfc3339(t);
    let b = chrono_parse_rfc2822(t);
    let c = chrono_parse_naive(t, "%Y-%m-%d %H:%M:%S");
    let d = chrono_parse_naive(t, "%Y-%m-%dT%H:%M:%S");
    first_parsed(a, b, c, d)
}

/// The UTC instant of a wall-clock time read at a fixed offset east of UTC,
/// as chrono's `FixedOffset::from_local_datetime(..).single()` gives it:
/// the offset subtracted, or `None` where that leaves chrono's range.
pub open spec fn local_to_utc_spec(local: (i64, u32), offset_secs: int) -> Option<(i64, u32)> {
    let secs = local.0 - offset_secs;
    if MIN_TIMESTAMP <= secs <= MAX_TIMESTAMP {
        Some((secs as i64, local.1))
    } else {
        None
    }
}

/// Converts a wall-clock time at a fixed offset (in seconds east of UTC, less
/// than a day either way) to UTC.
pub fn local_to_utc(local: Instant, offset_secs: i32) -> (r: Option<Instant>)
    requires
        local.in_range(),
        -86_400 < offset_secs < 86_400,
    ensures
        instant_pair(r) == local_to_utc_spec(local.pair(), offset_secs as int),
{
    let secs = local.secs - offset_secs as i64;
    if MIN_TIMESTAMP <= secs && secs <= MAX_TIMESTAMP {
        Some(Instant { secs, nanos: local.nanos })
    } else {
        None
    }
}

/// Korean Standard Time, the zone of NewsPenguin's feed, in seconds east of
/// UTC.
pub const KST_OFFSET_SECS: i32 = 32400;

/// The instant of a feed date: a plain `%Y-%m-%d %H:%M:%S` time read in
/// Korean Standard Time when one was read, else `fallback`.
pub open spec fn feed_date_choice(naive_local: Option<(i64, u32)>, fallback: Option<(i64, u32)>) -> Option<(i64, u32)> {
    match naive_local {
        Some(p) => local_to_utc_spec(p, KST_OFFSET_SECS as int),
        None => fallback,
    }
}

/// Chooses the instant of a feed date from the plain reading taken in Korean
/// Standard Time and the general reading.
pub fn choose_feed_date(naive_local: Option<Instant>, fallback: Option<Instant>) -> (r: Option<
    Instant,
>)
    requires
        naive_local matches Some(n) ==> n.in_range(),
    ensures
        instant_pair(r) == feed_date_choice(instant_pair(naive_local), instant_pair(fallback)),
{
    match naive_local {
        Some(n) => local_to_utc(n, KST_OFFSET_SECS),
        None => fallback,
    }
}

/// The instant a feed's publication date denotes: a trimmed plain
/// `%Y-%m-%d %H:%M:%S` time is Korean Standard Time; anything else is read as
/// `date_from_text` reads it.
pub open spec fn feed_date_from_text(s: Seq<char>) -> Option<(i64, u32)> {
    let t = trim_spec(s);
    feed_date_choice(naive_parse(t, date_time_pattern()), date_from_text(t))
}

/// Reads the publication date of a feed item.
pub fn parse_rss_date(s: &str) -> (r: Option<Instant>)
    ensures
        instant_pair(r) == feed_date_from_text(s@),
        r matches Some(i) ==> i.in_range(),
{
    let t = trim(s);
    let naive = chrono_parse_naive(t, "%Y-%m-%d %H:%M:%S");
    let general = parse_date(t);
    choose_feed_date(naive, general)
}

/// The text `to_rfc3339` writes for an instant, when chrono can represent it.
pub fn to_rfc3339(at: &Instant) -> (r: Option<String>)
    ensures
        r is Some <==> at.representable(),
        r matches Some(t) ==> t@ == rfc3339_text(at.secs, at.nanos),
{
    chrono_to_rfc3339(at)
}

/// The text `to_rfc2822` writes for an instant, when chrono can represent it
/// in that format (years 0 to 9999).
pub fn to_rfc2822(at: &Instant) -> (r: Option<String>)
    ensures
        r is Some <==> (at.representable() && YEAR_0_TIMESTAMP <= at.secs <= YEAR_9999_END_TIMESTAMP),
        r matches Some(t) ==> t@ == rfc2822_text(at.secs, at.nanos),
{
    if YEAR_0_TIMESTAMP <= at.secs && at.secs <= YEAR_9999_END_TIMESTAMP {
        chrono_to_rfc2822(at)
    } else {
        None
    }
}

/// The text of an instant as `%Y-%m-%d %H:%M:%S`, the way the time of the last
/// run is stored, when chrono can represent the instant.
pub fn to_date_time_text(at: &Instant) -> (r: Option<String>)
    ensures
        r is Some <==> at.representable(),
        r matches Some(t) ==> t@ == strftime_text(at.secs, at.nanos, date_time_pattern()),
{
    let pattern = "%Y-%m-%d %H:%M:%S";
    proof {
        reveal_strlit("%Y-%m-%d %H:%M:%S");
    }
    chrono_format(at, pattern)
}

/// Reads an RFC 3339 date-time (as chrono's `parse_from_rfc3339` does, with
/// no trimming).
pub fn parse_rfc3339(s: &str) -> (r: Option<Instant>)
    ensures
        instant_pair(r) == rfc3339_parse(s@),
        r matches Some(i) ==> i.in_range(),
{
    chrono_parse_rfc3339(s)
}

} // verus!

verus! {

/// White space around a date text does not change what it denotes.
pub proof fn law_date_ignores_surrounding_space(s: Seq<char>)
    ensures
        date_from_text(trim_spec(s)) == date_from_text(s),
        feed_date_from_text(trim_spec(s)) == feed_date_from_text(s),
{
    crate::text::law_trim_idempotent(s);
}

/// A plain feed date is Korean Standard Time: it denotes the instant nine
/// hours before the same wall-clock time read as UTC (where that instant is
/// in chrono's range).
pub proof fn law_plain_feed_date_is_kst(s: Seq<char>, p: (i64, u32))
    requires
        naive_parse(trim_spec(s), date_time_pattern()) == Some(p),
        MIN_TIMESTAMP <= p.0 - 32400 <= MAX_TIMESTAMP,
    ensures
        feed_date_from_text(s) == Some(((p.0 - 32400) as i64, p.1)),
{
}

/// `before` is a strict order: never reflexive, and transitive.
pub proof fn law_before_is_strict_order(a: Instant, b: Instant, c: Instant)
    ensures
        !a.before(a),
        a.before(b) && b.before(c) ==> a.before(c),
        a.before(b) ==> !b.before(a),
{
}

} // verus!
