//! Timestamps of progress: how they are read, written, and compared.

use crate::text::{is_before, text_before, text_is_not_before_itself, text_order_is_one_way};
use chrono::{DateTime, Utc};
use vstd::prelude::*;

verus! {

/// The last second that the clock can report, in the year 262142.
pub const LAST_SECOND: i64 = 8_210_266_876_799;

/// The first second of the year 10000, from which a year no longer fits in four digits.
pub const YEAR_TEN_THOUSAND: i64 = 253_402_300_800;

/// The instant that chrono reads out of an RFC 3339 text, as seconds since 1970-01-01T00:00:00Z and
/// nanoseconds within the second, or `None` where the text is not in that format.
pub uninterp spec fn rfc3339_instant(text: Seq<char>) -> Option<(i64, u32)>;

/// The RFC 3339 text that chrono writes for an instant, in UTC.
pub uninterp spec fn rfc3339_text(seconds: i64, nanos: u32) -> Seq<char>;

/// An instant in UTC. The nanoseconds exceed 999 999 999 within a leap second.
#[derive(Debug, Clone, Copy, PartialEq, Eq, Structural)]
pub struct Timestamp {
    pub seconds: i64,
    pub nanos: u32,
}

impl Timestamp {
    /// `self` is strictly later than `other`.
    pub open spec fn later_than(self, other: Timestamp) -> bool {
        self.seconds > other.seconds || (self.seconds == other.seconds && self.nanos > other.nanos)
    }

    /// Whether `self` is strictly later than `other`.
    pub fn is_later_than(&self, other: &Timestamp) -> (later: bool)
        ensures
            later == self.later_than(*other),
    {
        self.seconds > other.seconds || (self.seconds == other.seconds && self.nanos > other.nanos)
    }
}

/// The instant that `text` denotes, if it is an RFC 3339 timestamp.
pub open spec fn timestamp_of(text: Seq<char>) -> Option<Timestamp> {
    match rfc3339_instant(text) {
        Some((seconds, nanos)) => Some(Timestamp { seconds, nanos }),
        None => None,
    }
}

/// The remote text is newer than the local one, given the instants that they denote: by instant
/// where both denote one, by the order of the texts otherwise.
pub open spec fn newer_given(
    local: Seq<char>,
    local_at: Option<Timestamp>,
    remote: Seq<char>,
    remote_at: Option<Timestamp>,
) -> bool {
    match (local_at, remote_at) {
        (Some(local_at), Some(remote_at)) => remote_at.later_than(local_at),
        _ => text_before(local, remote),
    }
}

/// The remote timestamp is newer than the local one. Anything is newer than no timestamp at all.
pub open spec fn remote_newer(local: Option<Seq<char>>, remote: Seq<char>) -> bool {
    match local {
        None => true,
        Some(local) => newer_given(local, timestamp_of(local), remote, timestamp_of(remote)),
    }
}

/// Calls `chrono::DateTime::parse_from_rfc3339` and carries the result over to UTC. The instant
/// depends on the text alone; a text that is refused gives `None`.
#[verifier::external_body]
fn parse_rfc3339(value: &str) -> (instant: Option<(i64, u32)>)
    ensures
        instant == rfc3339_instant(value@),
{
    DateTime::parse_from_rfc3339(value)
        .ok()
        .map(|date| date.with_timezone(&Utc))
        .map(|date| (date.timestamp(), date.timestamp_subsec_nanos()))
}

/// Calls `chrono::Utc::now`. The clock is never before 1970 nor past the last instant that chrono
/// represents (the call panics on a machine whose clock is), and never within a leap second. Which
/// instant it is depends on the machine, so nothing more is said of it.
#[verifier::external_body]
fn clock() -> (now: (i64, u32))
    ensures
        0 <= now.0 <= LAST_SECOND,
        now.1 < 1_000_000_000,
{
    let now = Utc::now();
    (now.timestamp(), now.timestamp_subsec_nanos())
}

/// Calls `chrono::DateTime::to_rfc3339` on the instant in UTC. The text depends on the instant
/// alone, and reads back as that instant as long as the year has four digits; a longer year is
/// written with a sign, which is not RFC 3339.
#[verifier::external_body]
fn write_rfc3339(seconds: i64, nanos: u32) -> (text: String)
    requires
        0 <= seconds <= LAST_SECOND,
        nanos < 1_000_000_000,
    ensures
        text@ == rfc3339_text(seconds, nanos),
        seconds < YEAR_TEN_THOUSAND ==> rfc3339_instant(text@) == Some((seconds, nanos)),
{
    DateTime::from_timestamp(seconds, nanos).unwrap().to_rfc3339()
}

/// Reads an RFC 3339 timestamp.
pub fn parse_timestamp(value: &str) -> (timestamp: Option<Timestamp>)
    ensures
        timestamp == timestamp_of(value@),
{
    match parse_rfc3339(value) {
        Some((seconds, nanos)) => Some(Timestamp { seconds, nanos }),
        None => None,
    }
}

/// `text` is what the local clock is written as at some instant.
pub open spec fn is_clock_text(text: Seq<char>) -> bool {
    exists|seconds: i64, nanos: u32|
        {
            &&& 0 <= seconds <= LAST_SECOND
            &&& nanos < 1_000_000_000
            &&& text == #[trigger] rfc3339_text(seconds, nanos)
            &&& seconds < YEAR_TEN_THOUSAND ==> rfc3339_instant(text) == Some((seconds, nanos))
        }
}

/// The current time as an RFC 3339 timestamp in UTC.
pub fn now_text() -> (text: String)
    ensures
        is_clock_text(text@),
{
    let (seconds, nanos) = clock();
    write_rfc3339(seconds, nanos)
}

/// Whether the remote text is newer than the local one, given the instants that they denote.
pub fn is_newer_given(
    local: &str,
    local_at: Option<Timestamp>,
    remote: &str,
    remote_at: Option<Timestamp>,
) -> (newer: bool)
    ensures
        newer == newer_given(local@, local_at, remote@, remote_at),
{
    match (local_at, remote_at) {
        (Some(local_at), Some(remote_at)) => remote_at.is_later_than(&local_at),
        _ => is_before(local, remote),
    }
}

/// Whether a remote timestamp is newer than the local one, if there is a local one.
pub fn is_remote_newer(local: Option<&String>, remote: &str) -> (newer: bool)
    ensures
        newer == remote_newer(
            match local {
                Some(local) => Some(local@),
                None => None,
            },
            remote@,
        ),
{
    match local {
        None => true,
        Some(local) => {
            is_newer_given(
                local.as_str(),
                parse_timestamp(local.as_str()),
                remote,
                parse_timestamp(remote),
            )
        },
    }
}

/// A timestamp is never newer than itself: the copy that the server stamped and sent back does not
/// replace the one it acknowledges.
pub proof fn same_timestamp_is_not_newer(timestamp: Seq<char>)
    ensures
        !remote_newer(Some(timestamp), timestamp),
{
    text_is_not_before_itself(timestamp);
}

/// Where both texts denote an instant, the remote one is newer exactly where its instant is strictly
/// later, by the second first and by the nanosecond within the second.
pub proof fn later_instant_is_newer(
    local: Seq<char>,
    local_at: (i64, u32),
    remote: Seq<char>,
    remote_at: (i64, u32),
)
    requires
        rfc3339_instant(local) == Some(local_at),
        rfc3339_instant(remote) == Some(remote_at),
    ensures
        remote_newer(Some(local), remote) <==> (remote_at.0 > local_at.0 || (remote_at.0
            == local_at.0 && remote_at.1 > local_at.1)),
        timestamp_of(local) matches Some(at) && at.seconds == local_at.0 && at.nanos == local_at.1,
{
}

/// Where a text denotes no instant, the remote text is newer exactly where it comes behind the local
/// one; anything is newer than no timestamp at all.
pub proof fn text_decides_without_instants(local: Seq<char>, remote: Seq<char>)
    ensures
        remote_newer(None, remote),
        rfc3339_instant(local) is None ==> timestamp_of(local) is None,
        rfc3339_instant(local) is None || rfc3339_instant(remote) is None ==> remote_newer(
            Some(local),
            remote,
        ) == text_before(local, remote),
{
}

/// Given instants are compared by the second first and by the nanosecond within the second, and the
/// texts where one of them is missing.
pub proof fn given_instants_decide(
    local: Seq<char>,
    local_at: Timestamp,
    remote: Seq<char>,
    remote_at: Timestamp,
)
    ensures
        newer_given(local, Some(local_at), remote, Some(remote_at)) <==> (remote_at.seconds
            > local_at.seconds || (remote_at.seconds == local_at.seconds && remote_at.nanos
            > local_at.nanos)),
        remote_at.later_than(local_at) <==> newer_given(
            local,
            Some(local_at),
            remote,
            Some(remote_at),
        ),
        newer_given(local, None, remote, Some(remote_at)) == text_before(local, remote),
        newer_given(local, Some(local_at), remote, None) == text_before(local, remote),
        newer_given(local, None, remote, None) == text_before(local, remote),
{
}

/// What the local clock is written as is what chrono writes for some instant since 1970, and it
/// reads back as that instant before the year 10000.
pub proof fn clock_text_reads_back(text: Seq<char>)
    requires
        is_clock_text(text),
    ensures
        exists|seconds: i64, nanos: u32|
            0 <= seconds && nanos < 1_000_000_000 && text == #[trigger] rfc3339_text(seconds, nanos)
                && (seconds < 253_402_300_800 ==> rfc3339_instant(text) == Some((seconds, nanos))),
{
}

/// What counts is the instant, not the format in which it is written.
pub proof fn format_does_not_matter(
    local: Seq<char>,
    same_local: Seq<char>,
    remote: Seq<char>,
    same_remote: Seq<char>,
)
    requires
        timestamp_of(local) is Some,
        timestamp_of(remote) is Some,
        timestamp_of(local) == timestamp_of(same_local),
        timestamp_of(remote) == timestamp_of(same_remote),
    ensures
        remote_newer(Some(local), remote) == remote_newer(Some(same_local), same_remote),
{
}

/// Of two timestamps at most one is newer than the other, in whatever formats they are written.
pub proof fn newer_is_one_way(one: Seq<char>, other: Seq<char>)
    ensures
        !(remote_newer(Some(one), other) && remote_newer(Some(other), one)),
{
    text_order_is_one_way(one, other);
}

} // verus!
