//! Points in time, held as plain numbers, and their text in UTC.
//!
//! The clock is read through std, which has an answer for every state of
//! the clock, also for one that stands before 1970.

use chrono::{DateTime, SecondsFormat, Utc};
use std::time::{SystemTime, UNIX_EPOCH};
use vstd::pervasive::unreached;
use vstd::prelude::*;

verus! {

/// The text that chrono writes for the instant `secs` seconds and `nanos`
/// nanoseconds after the Unix epoch: date and time as in RFC 3339, in UTC with
/// a `Z` at the end, the fraction of the second in no more groups of three
/// digits than it needs. `None` where chrono cannot represent the instant.
pub uninterp spec fn utc_text(secs: i64, nanos: u32) -> Option<Seq<char>>;

/// An instant that has a text in UTC.
#[derive(Clone, Copy, Debug)]
pub struct Timestamp {
    secs: i64,
    nanos: u32,
}

/// What the system clock shows, measured from the Unix epoch.
#[derive(Clone, Copy, Debug, PartialEq, Eq, Structural)]
pub enum ClockReading {
    /// This long after the epoch, or at it.
    Since { secs: u64, nanos: u32 },
    /// This long before the epoch.
    Before { secs: u64, nanos: u32 },
}

/// std's point in time on the system clock, carried as it is.
#[verifier::external_type_specification]
#[verifier::external_body]
pub struct ExSystemTime(SystemTime);

/// `chrono::DateTime::<Utc>::from_timestamp`, then `to_rfc3339_opts` with
/// `SecondsFormat::AutoSi` and `use_z`: the text is a function of the two
/// numbers alone, and there is none exactly where `from_timestamp` gives `None`
/// (seconds out of chrono's range, or nanoseconds that name no instant). The
/// epoch itself, chrono's `UNIX_EPOCH`, has a text.
#[verifier::external_body]
fn format_utc(secs: i64, nanos: u32) -> (r: Option<String>)
    ensures
        r matches Some(s) ==> utc_text(secs, nanos) == Some(s@),
        r is None ==> utc_text(secs, nanos) is None,
        secs == 0 && nanos == 0 ==> r is Some,
{
    match DateTime::<Utc>::from_timestamp(secs, nanos) {
        Some(t) => Some(t.to_rfc3339_opts(SecondsFormat::AutoSi, true)),
        None => None,
    }
}

/// `std::time::SystemTime::now`: the system clock, of which nothing is
/// claimed.
#[verifier::external_body]
fn system_now() -> SystemTime {
    SystemTime::now()
}

/// `SystemTime::duration_since` the Unix epoch, which answers for a time
/// before the epoch too, by the error that holds the distance. Either way
/// the nanoseconds are the fraction of a second, below one billion, as
/// `Duration::subsec_nanos` documents.
#[verifier::external_body]
fn since_epoch(t: &SystemTime) -> (r: ClockReading)
    ensures
        match r {
            ClockReading::Since { secs, nanos } => nanos < 1_000_000_000,
            ClockReading::Before { secs, nanos } => nanos < 1_000_000_000,
        },
{
    match t.duration_since(UNIX_EPOCH) {
        Ok(d) => ClockReading::Since { secs: d.as_secs(), nanos: d.subsec_nanos() },
        Err(e) => ClockReading::Before {
            secs: e.duration().as_secs(),
            nanos: e.duration().subsec_nanos(),
        },
    }
}

impl ClockReading {
    /// The reading as seconds and nanoseconds after the epoch, the seconds
    /// negative for a time before it; `None` where the numbers do not fit.
    pub open spec fn instant(self) -> Option<(i64, u32)> {
        match self {
            ClockReading::Since { secs, nanos } => if secs <= i64::MAX {
                Some((secs as i64, nanos))
            } else {
                None
            },
            ClockReading::Before { secs, nanos } => if secs >= i64::MAX || nanos
                >= 1_000_000_000 {
                None
            } else if nanos == 0 {
                Some(((-(secs as int)) as i64, 0u32))
            } else {
                Some(((-(secs as int) - 1) as i64, (1_000_000_000 - nanos) as u32))
            },
        }
    }

    /// The instant that stands for the reading: the one it shows, where that
    /// has a text in UTC, and the epoch for a clock so far off that it has
    /// none.
    pub open spec fn stamp(self) -> (i64, u32) {
        match self.instant() {
            Some((secs, nanos)) => if utc_text(secs, nanos) is Some {
                (secs, nanos)
            } else {
                (0i64, 0u32)
            },
            None => (0i64, 0u32),
        }
    }
}

impl Timestamp {
    /// Seconds since the Unix epoch.
    pub closed spec fn spec_secs(&self) -> i64 {
        self.secs
    }

    /// Nanoseconds since the last whole second.
    pub closed spec fn spec_nanos(&self) -> u32 {
        self.nanos
    }

    /// Whether the instant has a text in UTC, which every `Timestamp` that
    /// executable code holds does.
    #[verifier::type_invariant]
    pub open spec fn wf(&self) -> bool {
        utc_text(self.spec_secs(), self.spec_nanos()) is Some
    }

    /// The instant's text in UTC.
    pub open spec fn text(&self) -> Seq<char> {
        utc_text(self.spec_secs(), self.spec_nanos()).unwrap()
    }

    /// The instant `secs` seconds and `nanos` nanoseconds after the Unix epoch,
    /// if it has a text in UTC.
    pub fn new(secs: i64, nanos: u32) -> (r: Option<Timestamp>)
        ensures
            r is Some <==> utc_text(secs, nanos) is Some,
            r matches Some(t) ==> t.spec_secs() == secs && t.spec_nanos() == nanos && t.wf(),
    {
        match format_utc(secs, nanos) {
            Some(_) => Some(Timestamp { secs, nanos }),
            None => None,
        }
    }

    /// The Unix epoch.
    pub fn epoch() -> (r: Timestamp)
        ensures
            r.spec_secs() == 0 && r.spec_nanos() == 0,
            r.wf(),
    {
        match format_utc(0, 0) {
            Some(_) => Timestamp { secs: 0, nanos: 0 },
            None => unreached(),
        }
    }

    /// The instant that stands for what the clock showed.
    pub fn from_reading(reading: ClockReading) -> (r: Timestamp)
        ensures
            (r.spec_secs(), r.spec_nanos()) == reading.stamp(),
            r.wf(),
    {
        let shown: Option<(i64, u32)> = match reading {
            ClockReading::Since { secs, nanos } => if secs <= i64::MAX as u64 {
                Some((secs as i64, nanos))
            } else {
                None
            },
            ClockReading::Before { secs, nanos } => if secs >= i64::MAX as u64 || nanos
                >= 1_000_000_000 {
                None
            } else if nanos == 0 {
                Some((-(secs as i64), 0))
            } else {
                Some((-(secs as i64) - 1, 1_000_000_000 - nanos))
            },
        };
        assert(shown == reading.instant());
        match shown {
            Some((secs, nanos)) => match Timestamp::new(secs, nanos) {
                Some(t) => t,
                None => Timestamp::epoch(),
            },
            None => Timestamp::epoch(),
        }
    }

    /// The current instant, by the system clock, whatever it shows.
    pub fn now() -> (r: Timestamp)
        ensures
            r.wf(),
    {
        let t = system_now();
        Timestamp::from_reading(since_epoch(&t))
    }

    /// Seconds since the Unix epoch.
    #[verifier::when_used_as_spec(spec_secs)]
    pub fn secs(&self) -> (r: i64)
        ensures
            r == self.spec_secs(),
    {
        self.secs
    }

    /// Nanoseconds since the last whole second.
    #[verifier::when_used_as_spec(spec_nanos)]
    pub fn nanos(&self) -> (r: u32)
        ensures
            r == self.spec_nanos(),
    {
        self.nanos
    }

    /// The instant's text in UTC, as it stands in an alert.
    pub fn to_text(&self) -> (r: String)
        ensures
            self.wf(),
            r@ == self.text(),
    {
        proof {
            use_type_invariant(self);
        }
        match format_utc(self.secs, self.nanos) {
            Some(s) => s,
            None => unreached(),
        }
    }
}

} // verus!
