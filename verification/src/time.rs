//! Instants in time, and their RFC 3339 text as `chrono` writes and reads it.

use vstd::prelude::*;

verus! {

/// An instant, counted in seconds and nanoseconds from the Unix epoch.
#[derive(Clone, Copy, Debug, PartialEq, Eq, Structural)]
pub struct UnixTime {
    /// Whole seconds since 1970-01-01T00:00:00Z.
    pub secs: i64,
    /// Nanoseconds since the last whole second.
    pub nanos: u32,
}

impl UnixTime {
    /// Whether `self` is not later than `other`.
    pub open spec fn at_or_before(self, other: UnixTime) -> bool {
        self.secs < other.secs || (self.secs == other.secs && self.nanos <= other.nanos)
    }

    /// Whether `self` is not later than `other`.
    pub fn is_at_or_before(&self, other: &UnixTime) -> (res: bool)
        ensures
            res == self.at_or_before(*other),
    {
        self.secs < other.secs || (self.secs == other.secs && self.nanos <= other.nanos)
    }
}

/// The text that `chrono` writes for the instant `secs`, `nanos` in UTC with
/// `SecondsFormat::AutoSi` and a `Z` suffix, or `None` where `chrono` has no
/// `DateTime` for these numbers.
pub uninterp spec fn rfc3339_text(secs: int, nanos: int) -> Option<Seq<char>>;

/// The instant, as seconds and nanoseconds, that `chrono` reads from an
/// RFC 3339 text, or `None` where it rejects the text.
pub uninterp spec fn rfc3339_instant(text: Seq<char>) -> Option<(int, int)>;

/// Writes an instant as RFC 3339 text.
///
/// Calls `chrono::DateTime::from_timestamp` and, on the `DateTime` it gives,
/// `to_rfc3339_opts(SecondsFormat::AutoSi, true)`. The contract only names the
/// outcome: the same numbers always give the same text, or are always refused.
#[verifier::external_body]
fn write_rfc3339(secs: i64, nanos: u32) -> (text: Option<String>)
    ensures
        match text {
            Some(t) => rfc3339_text(secs as int, nanos as int) == Some(t@),
            None => rfc3339_text(secs as int, nanos as int) is None,
        },
{
    match chrono::DateTime::from_timestamp(secs, nanos) {
        Some(instant) => Some(instant.to_rfc3339_opts(chrono::SecondsFormat::AutoSi, true)),
        None => None,
    }
}

/// Reads an instant from RFC 3339 text.
///
/// Calls `chrono::DateTime::parse_from_rfc3339` and takes the result apart with
/// `DateTime::timestamp` and `DateTime::timestamp_subsec_nanos`. The contract
/// only names the outcome: the same text always gives the same instant, or is
/// always rejected.
#[verifier::external_body]
fn read_rfc3339(text: &str) -> (instant: Option<UnixTime>)
    ensures
        match instant {
            Some(t) => rfc3339_instant(text@) == Some((t.secs as int, t.nanos as int)),
            None => rfc3339_instant(text@) is None,
        },
{
    match chrono::DateTime::parse_from_rfc3339(text) {
        Ok(parsed) => Some(
            UnixTime { secs: parsed.timestamp(), nanos: parsed.timestamp_subsec_nanos() },
        ),
        Err(_) => None,
    }
}

/// Whether an instant has an RFC 3339 text that reads back as the same instant.
pub open spec fn has_rfc3339_form(instant: UnixTime) -> bool {
    rfc3339_text(instant.secs as int, instant.nanos as int) matches Some(text) && rfc3339_instant(
        text,
    ) == Some((instant.secs as int, instant.nanos as int))
}

/// The RFC 3339 text of an instant that has one.
pub open spec fn canonical_rfc3339(instant: UnixTime) -> Seq<char> {
    match rfc3339_text(instant.secs as int, instant.nanos as int) {
        Some(text) => text,
        None => Seq::empty(),
    }
}

/// The instant that an RFC 3339 text stands for, where the text is accepted and
/// the instant has an RFC 3339 form of its own.
pub open spec fn timestamp_of_text(text: Seq<char>) -> Option<UnixTime> {
    match rfc3339_instant(text) {
        Some((secs, nanos)) => if i64::MIN <= secs <= i64::MAX && 0 <= nanos <= u32::MAX
            && has_rfc3339_form(UnixTime { secs: secs as i64, nanos: nanos as u32 }) {
            Some(UnixTime { secs: secs as i64, nanos: nanos as u32 })
        } else {
            None
        },
        None => None,
    }
}

/// The canonical text of an instant reads back as that instant.
pub proof fn lemma_timestamp_round_trip(instant: UnixTime)
    requires
        has_rfc3339_form(instant),
    ensures
        timestamp_of_text(canonical_rfc3339(instant)) == Some(instant),
{
}

/// An instant that can be written as RFC 3339 text and read back unchanged.
#[derive(Clone, Copy, Debug, PartialEq, Eq, Structural)]
pub struct Timestamp {
    instant: UnixTime,
}

impl View for Timestamp {
    type V = UnixTime;

    closed spec fn view(&self) -> UnixTime {
        self.instant
    }
}

impl Timestamp {
    #[verifier::type_invariant]
    spec fn well_formed(self) -> bool {
        has_rfc3339_form(self.instant)
    }

    /// The timestamp of an instant, if the instant has an RFC 3339 text that
    /// reads back as the same instant.
    pub fn from_unix_time(instant: UnixTime) -> (res: Option<Timestamp>)
        ensures
            res is Some <==> has_rfc3339_form(instant),
            res matches Some(t) ==> t@ == instant,
    {
        match write_rfc3339(instant.secs, instant.nanos) {
            Some(text) => match read_rfc3339(text.as_str()) {
                Some(back) => {
                    if back.secs == instant.secs && back.nanos == instant.nanos {
                        Some(Timestamp { instant })
                    } else {
                        None
                    }
                },
                None => None,
            },
            None => None,
        }
    }

    /// Reads a timestamp from RFC 3339 text, which may use any offset.
    pub fn parse_from_rfc3339(text: &str) -> (res: Option<Timestamp>)
        ensures
            match res {
                Some(t) => timestamp_of_text(text@) == Some(t@),
                None => timestamp_of_text(text@) is None,
            },
    {
        match read_rfc3339(text) {
            Some(instant) => Timestamp::from_unix_time(instant),
            None => None,
        }
    }

    /// The instant of this timestamp.
    pub fn unix_time(&self) -> (res: UnixTime)
        ensures
            res == self@,
            has_rfc3339_form(self@),
    {
        proof {
            use_type_invariant(self);
        }
        self.instant
    }

    /// The canonical RFC 3339 text of this timestamp: UTC with a `Z` suffix, and
    /// a fraction of a second only where the instant has one.
    pub fn to_rfc3339(&self) -> (res: String)
        ensures
            res@ == canonical_rfc3339(self@),
            has_rfc3339_form(self@),
    {
        proof {
            use_type_invariant(self);
        }
        match write_rfc3339(self.instant.secs, self.instant.nanos) {
            Some(text) => text,
            None => String::new(),
        }
    }
}

} // verus!
