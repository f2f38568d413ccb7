//! Instants and spans of time.
use vstd::prelude::*;

verus! {

/// How many nanoseconds a second has.
pub const NANOS_PER_SEC: i128 = 1_000_000_000;

/// First second of the year -262143, the earliest that a calendar date can be given to.
pub const FIRST_SECOND: i64 = -8_334_601_228_800;

/// Last second of the year 262142, the latest that a calendar date can be given to.
pub const LAST_SECOND: i64 = 8_210_266_876_799;

/// A UTC instant: whole seconds since the Unix epoch, and nanoseconds on top. Nanoseconds beyond
/// one second mark a leap second, which only the last second of a minute can have.
#[derive(Debug, Clone, Copy, PartialEq, Eq, Structural)]
pub struct Timestamp {
    pub(crate) secs: i64,
    pub(crate) nanos: u32,
}

/// Whether seconds and nanoseconds name an instant of the supported calendar range.
pub open spec fn is_instant(secs: i64, nanos: u32) -> bool {
    &&& FIRST_SECOND <= secs <= LAST_SECOND
    &&& nanos < 2_000_000_000
    &&& nanos >= 1_000_000_000 ==> secs % 60 == 59
}

impl Timestamp {
    #[verifier::type_invariant]
    spec fn in_range(self) -> bool {
        is_instant(self.secs, self.nanos)
    }

    /// Seconds since the Unix epoch.
    pub closed spec fn spec_secs(&self) -> i64 {
        self.secs
    }

    /// Nanoseconds on top of the seconds.
    pub closed spec fn spec_nanos(&self) -> u32 {
        self.nanos
    }

    /// The instant that is so many seconds and nanoseconds behind the Unix epoch; `None` where no
    /// calendar date can be given to it.
    pub fn new(secs: i64, nanos: u32) -> (r: Option<Timestamp>)
        ensures
            r is Some <==> is_instant(secs, nanos),
            r matches Some(t) ==> t.spec_secs() == secs && t.spec_nanos() == nanos,
    {
        if secs < FIRST_SECOND || secs > LAST_SECOND || nanos >= 2_000_000_000 {
            return None;
        }
        // The remainder of a negative number counts from the end of the minute.
        let second: i64 = ((secs % 60) + 60) % 60;
        assert(second == (secs as int) % 60) by (nonlinear_arith)
            requires
                second == ((if secs >= 0 { (secs as int) % 60 } else { -((-(secs as int)) % 60) }) + 60) % 60,
        ;
        if nanos >= 1_000_000_000 && second != 59 {
            return None;
        }
        Some(Timestamp { secs, nanos })
    }

    /// Seconds since the Unix epoch.
    pub fn secs(&self) -> (r: i64)
        ensures
            r == self.spec_secs(),
            FIRST_SECOND <= r <= LAST_SECOND,
    {
        proof {
            use_type_invariant(self);
        }
        self.secs
    }

    /// Nanoseconds on top of the seconds.
    pub fn nanos(&self) -> (r: u32)
        ensures
            r == self.spec_nanos(),
            is_instant(self.spec_secs(), r),
    {
        proof {
            use_type_invariant(self);
        }
        self.nanos
    }
}

/// A span of time, never negative: whole seconds, and less than a second of nanoseconds.
#[derive(Debug, Clone, Copy, PartialEq, Eq, Structural)]
pub struct TimeSpan {
    pub(crate) secs: u64,
    pub(crate) nanos: u32,
}

impl TimeSpan {
    #[verifier::type_invariant]
    spec fn normal(self) -> bool {
        self.nanos < 1_000_000_000
    }

    /// The length of the span in nanoseconds.
    pub closed spec fn spec_nanos(&self) -> int {
        self.secs * 1_000_000_000 + self.nanos
    }

    /// A span is at most as long as its seconds and one more.
    pub proof fn lemma_bound(&self)
        ensures
            self.spec_nanos() < (u64::MAX + 1) * 1_000_000_000 + 0x1_0000_0000,
            self.spec_nanos() >= 0,
    {
    }

    /// A span of whole seconds.
    pub fn from_secs(secs: u64) -> (r: TimeSpan)
        ensures
            r.spec_nanos() == secs * 1_000_000_000,
    {
        TimeSpan { secs, nanos: 0 }
    }

    /// A span of milliseconds.
    pub fn from_millis(millis: u64) -> (r: TimeSpan)
        ensures
            r.spec_nanos() == millis * 1_000_000,
    {
        let rest: u32 = (millis % 1000) as u32;
        TimeSpan { secs: millis / 1000, nanos: rest * 1_000_000 }
    }

    /// A span of nanoseconds; `None` where its seconds exceed 64 bits.
    pub fn from_nanos(nanos: u128) -> (r: Option<TimeSpan>)
        ensures
            r is Some <==> nanos / 1_000_000_000 <= u64::MAX,
            r matches Some(span) ==> span.spec_nanos() == nanos,
    {
        let secs: u128 = nanos / 1_000_000_000;
        if secs > u64::MAX as u128 {
            return None;
        }
        let rest: u32 = (nanos % 1_000_000_000) as u32;
        Some(TimeSpan { secs: secs as u64, nanos: rest })
    }

    /// Whole seconds of the span.
    pub fn secs(&self) -> (r: u64)
        ensures
            r == self.spec_nanos() / 1_000_000_000,
    {
        proof {
            use_type_invariant(self);
        }
        self.secs
    }

    /// Nanoseconds on top of the whole seconds.
    pub fn subsec_nanos(&self) -> (r: u32)
        ensures
            r == self.spec_nanos() % 1_000_000_000,
            r < 1_000_000_000,
    {
        proof {
            use_type_invariant(self);
        }
        self.nanos
    }

    /// The length of the span in nanoseconds.
    pub fn nanos(&self) -> (r: u128)
        ensures
            r == self.spec_nanos(),
    {
        self.secs as u128 * 1_000_000_000 + self.nanos as u128
    }
}

/// Nanoseconds from one instant to another, negative where the second comes first. A leap second
/// counts where the time of day shows that it has passed.
pub open spec fn elapsed_nanos(now: Timestamp, since: Timestamp) -> int {
    let now_of_day = now.spec_secs() as int % 86_400;
    let since_of_day = since.spec_secs() as int % 86_400;
    let leap: int = if now_of_day > since_of_day && since.spec_nanos() >= 1_000_000_000 {
        1
    } else if now_of_day < since_of_day && now.spec_nanos() >= 1_000_000_000 {
        -1
    } else {
        0
    };
    (now.spec_secs() - since.spec_secs() + leap) * 1_000_000_000 + (now.spec_nanos()
        - since.spec_nanos())
}

/// `DateTime::<Utc>::signed_duration_since` of chrono, as whole seconds and the nanoseconds that
/// are left: together they are the time between the two instants. chrono adds the leap second of
/// an instant when the other's time of day lies behind it. Every `Timestamp` is an instant that
/// `DateTime::from_timestamp` accepts.
#[verifier::external_body]
fn chrono_signed_duration_since(now: Timestamp, since: Timestamp) -> (r: (i64, i32))
    ensures
        r.0 * 1_000_000_000 + r.1 == elapsed_nanos(now, since),
        -1_000_000_000 < r.1 < 1_000_000_000,
{
    let now = chrono::DateTime::<chrono::Utc>::from_timestamp(now.secs, now.nanos).unwrap();
    let since = chrono::DateTime::<chrono::Utc>::from_timestamp(since.secs, since.nanos).unwrap();
    let elapsed = now.signed_duration_since(since);
    (elapsed.num_seconds(), elapsed.subsec_nanos())
}

/// Longest span that chrono's durations hold: as many milliseconds as a 64-bit integer counts.
pub open spec fn longest_chrono_nanos() -> int {
    i64::MAX * 1_000_000
}

/// `TimeDelta::from_std` of chrono, as whole seconds and the nanoseconds that are left: the same
/// span, or `None` where it is longer than chrono's durations get.
#[verifier::external_body]
fn chrono_from_std(span: TimeSpan) -> (r: Option<(i64, i32)>)
    ensures
        r is Some <==> span.spec_nanos() <= longest_chrono_nanos(),
        r matches Some(d) ==> d.0 * 1_000_000_000 + d.1 == span.spec_nanos() && 0 <= d.1
            < 1_000_000_000,
{
    let span = core::time::Duration::new(span.secs, span.nanos);
    match chrono::TimeDelta::from_std(span) {
        Ok(d) => Some((d.num_seconds(), d.subsec_nanos())),
        Err(_) => None,
    }
}

/// Whether what was stored at one instant is younger than a span at another. A span beyond what
/// chrono's durations hold is never reached.
pub open spec fn within(since: Timestamp, span: TimeSpan, now: Timestamp) -> bool {
    span.spec_nanos() > longest_chrono_nanos() || elapsed_nanos(now, since) < span.spec_nanos()
}

/// Tests whether less than a span has passed since an instant.
pub fn is_within(since: Timestamp, span: TimeSpan, now: Timestamp) -> (r: bool)
    ensures
        r == within(since, span, now),
{
    match chrono_from_std(span) {
        None => true,
        Some((span_secs, span_nanos)) => {
            let (secs, nanos) = chrono_signed_duration_since(now, since);
            let elapsed: i128 = secs as i128 * NANOS_PER_SEC + nanos as i128;
            let limit: i128 = span_secs as i128 * NANOS_PER_SEC + span_nanos as i128;
            elapsed < limit
        },
    }
}

/// Pattern of the timestamp in a backup directory's name.
pub const STAMP_PATTERN: &'static str = "%Y-%m-%dT%H-%M-%SZ";

/// Pattern of a calendar day.
pub const DAY_PATTERN: &'static str = "%Y-%m-%d";

/// First second of the year 0.
pub const YEAR_0_BEGIN: i64 = -62_167_219_200;

/// Last second of the year 9999.
pub const YEAR_9999_END: i64 = 253_402_300_799;

/// What `DateTime::<Utc>::format` of chrono writes for an instant under a pattern.
pub uninterp spec fn chrono_formatted(secs: i64, nanos: u32, pattern: Seq<char>) -> Seq<char>;

/// Digits, hyphens, and the two letters of a timestamp.
pub open spec fn is_stamp_char(c: char) -> bool {
    '0' <= c <= '9' || c == '-' || c == 'T' || c == 'Z'
}

/// `DateTime::<Utc>::format` of chrono, written out. Only the two patterns of this module are
/// handed to it, both well-formed. In the years 0 to 9999, which chrono writes with four digits and
/// no sign, the result holds digits and what the pattern has between them.
#[verifier::external_body]
fn chrono_format(at: Timestamp, pattern: &str) -> (r: String)
    requires
        pattern@ == STAMP_PATTERN@ || pattern@ == DAY_PATTERN@,
    ensures
        r@ == chrono_formatted(at.spec_secs(), at.spec_nanos(), pattern@),
        YEAR_0_BEGIN <= at.spec_secs() <= YEAR_9999_END && pattern@ == STAMP_PATTERN@ ==> r@.len()
            == 20 && forall|i: int| 0 <= i < r@.len() ==> is_stamp_char(#[trigger] r@[i]),
{
    let at = chrono::DateTime::<chrono::Utc>::from_timestamp(at.secs, at.nanos).unwrap();
    at.format(pattern).to_string()
}

/// What `DateTime::<Utc>::to_rfc3339` of chrono writes for an instant.
pub uninterp spec fn chrono_rfc3339(secs: i64, nanos: u32) -> Seq<char>;

/// `DateTime::<Utc>::to_rfc3339` of chrono: the instant in RFC 3339 form.
#[verifier::external_body]
fn chrono_to_rfc3339(at: Timestamp) -> (r: String)
    ensures
        r@ == chrono_rfc3339(at.spec_secs(), at.spec_nanos()),
{
    chrono::DateTime::<chrono::Utc>::from_timestamp(at.secs, at.nanos).unwrap().to_rfc3339()
}

/// `Utc::now` of chrono: the instant that the system's clock shows. chrono panics where the clock
/// stands before 1970 or beyond the instants that it can hold; nothing that a caller hands over
/// decides that.
#[verifier::external_body]
fn chrono_now() -> (r: Timestamp) {
    let now = chrono::Utc::now();
    Timestamp { secs: now.timestamp(), nanos: now.timestamp_subsec_nanos() }
}

impl Timestamp {
    /// The instant that the system's clock shows. Nothing is promised of it but that it is an
    /// instant. A clock that stands before 1970, or beyond the supported calendar range, makes
    /// chrono panic.
    pub fn now() -> (r: Timestamp)
        ensures
            is_instant(r.spec_secs(), r.spec_nanos()),
    {
        let r = chrono_now();
        proof {
            use_type_invariant(&r);
        }
        r
    }

    /// The instant in the form that stands in a backup directory's name.
    pub open spec fn spec_stamp(&self) -> Seq<char> {
        chrono_formatted(self.spec_secs(), self.spec_nanos(), STAMP_PATTERN@)
    }

    /// The instant in the form that stands in a backup directory's name.
    pub fn stamp(&self) -> (r: String)
        ensures
            r@ == self.spec_stamp(),
            YEAR_0_BEGIN <= self.spec_secs() <= YEAR_9999_END ==> r@.len() == 20 && forall|
                i: int,
            |
                0 <= i < r@.len() ==> is_stamp_char(#[trigger] r@[i]),
    {
        chrono_format(*self, STAMP_PATTERN)
    }

    /// The calendar day of the instant.
    pub open spec fn spec_day(&self) -> Seq<char> {
        chrono_formatted(self.spec_secs(), self.spec_nanos(), DAY_PATTERN@)
    }

    /// The calendar day of the instant.
    pub fn day(&self) -> (r: String)
        ensures
            r@ == self.spec_day(),
    {
        chrono_format(*self, DAY_PATTERN)
    }

    /// The instant in RFC 3339 form.
    pub fn rfc3339(&self) -> (r: String)
        ensures
            r@ == chrono_rfc3339(self.spec_secs(), self.spec_nanos()),
    {
        chrono_to_rfc3339(*self)
    }
}

} // verus!
