//! The modem's clock: a 64-bit count whose upper 48 bits are ticks of 1.25 ms
//! since 6 January 1980 and whose lower 16 bits are a fraction of a second in
//! steps of 1/40960 s.

use vstd::prelude::*;
use vstd::slice::slice_subrange;
use chrono::{DateTime, NaiveDateTime};
use crate::error::{FrameError, Field};
use crate::wire::{fits, read_u64, u64_at};

verus! {

#[verifier::external_type_specification]
#[verifier::external_body]
pub struct ExNaiveDateTime(NaiveDateTime);

/// Milliseconds from 1 January 1970 to 6 January 1980, both at midnight UTC.
pub const GPS_EPOCH_UNIX_MILLIS: i64 = 315_964_800_000;

/// A reading of the modem's clock.
#[derive(Debug, Clone, Copy, PartialEq, Eq, Structural)]
pub struct Timestamp {
    pub ts: u64,
}

impl Timestamp {
    /// The whole ticks of 1.25 ms: the upper 48 bits.
    pub open spec fn ticks(self) -> int {
        self.ts as int / 65536
    }

    /// The fraction, in steps of 1/40960 s: the lower 16 bits.
    pub open spec fn fraction(self) -> int {
        self.ts as int % 65536
    }

    /// The whole milliseconds between the epoch and this reading. A tick is
    /// 1280/1024 ms and a step of the fraction 25/1024 ms; what is left of a
    /// millisecond is dropped.
    pub open spec fn millis_since_epoch(self) -> int {
        (self.ticks() * 1280 + self.fraction() * 25) / 1024
    }

    /// The whole milliseconds between 1 January 1970 and this reading.
    pub open spec fn unix_millis(self) -> int {
        GPS_EPOCH_UNIX_MILLIS + self.millis_since_epoch()
    }

    /// The whole milliseconds between the epoch of 6 January 1980 and this
    /// reading.
    pub fn to_millis_since_epoch(&self) -> (ms: u64)
        ensures
            ms == self.millis_since_epoch(),
            ms as int * 1024 <= self.ticks() * 1280 + self.fraction() * 25 < (ms as int + 1)
                * 1024,
            ms <= 351_843_720_890_000,
    {
        let upper: u64 = self.ts / 65536;
        let lower: u64 = self.ts % 65536;
        (upper * 1280 + lower * 25) / 1024
    }

    /// The whole milliseconds between 1 January 1970 and this reading.
    pub fn to_unix_millis(&self) -> (ms: i64)
        ensures
            ms == self.unix_millis(),
            0 <= ms <= 1_000_000_000_000_000,
    {
        GPS_EPOCH_UNIX_MILLIS + self.to_millis_since_epoch() as i64
    }

    /// The calendar time of this reading in UTC, to the millisecond: the
    /// instant that lies `unix_millis` after 1 January 1970.
    pub fn to_datetime(&self) -> (at: NaiveDateTime)
        ensures
            unix_millis_of(at) == self.unix_millis(),
    {
        let at: Option<NaiveDateTime> = datetime_at_unix_millis(self.to_unix_millis());
        at.unwrap()
    }

    /// Decodes a reading from its eight little-endian bytes, which begin
    /// `input.1` bits into `input.0`, and hands back what follows them.
    pub fn from_bytes<'a>(input: (&'a [u8], usize)) -> (r: Result<
        ((&'a [u8], usize), Timestamp),
        FrameError,
    >)
        ensures
            match r {
                Ok((rest, value)) => {
                    &&& input.1 % 8 == 0
                    &&& fits(input.0@, input.1 as int / 8, 8)
                    &&& value.ts == u64_at(input.0@, input.1 as int / 8)
                    &&& rest.0@ == input.0@.subrange(
                        input.1 as int / 8 + 8,
                        input.0@.len() as int,
                    )
                    &&& rest.1 == 0
                },
                Err(e) => if input.1 % 8 != 0 {
                    e == FrameError::Unaligned
                } else {
                    !fits(input.0@, input.1 as int / 8, 8) && e == FrameError::Incomplete(
                        Field::Timestamp,
                    )
                },
            },
    {
        if input.1 % 8 != 0 {
            return Err(FrameError::Unaligned);
        }
        let at: usize = input.1 / 8;
        let ts: u64 = read_u64(input.0, at, Field::Timestamp)?;
        let rest: &[u8] = slice_subrange(input.0, at + 8, input.0.len());
        Ok(((rest, 0), Timestamp { ts }))
    }
}

/// The milliseconds between 1 January 1970 and a calendar time that is read
/// as UTC: what `chrono::DateTime::timestamp_millis` gives for it.
pub uninterp spec fn unix_millis_of(at: NaiveDateTime) -> int;

/// `chrono::DateTime::from_timestamp_millis`, with the result handed on
/// without its time zone, which is UTC. chrono builds the instant that lies
/// `millis` milliseconds after 1 January 1970, promises that
/// `timestamp_millis` gives the same number back for it, and gives `None`
/// only outside the years it can hold, which reach past the year 262000.
/// The contract claims this of an instant in the first 10^15 milliseconds
/// and nothing of any other.
#[verifier::external_body]
fn datetime_at_unix_millis(millis: i64) -> (r: Option<NaiveDateTime>)
    ensures
        0 <= millis <= 1_000_000_000_000_000 ==> r is Some && unix_millis_of(r->Some_0) == millis,
{
    DateTime::from_timestamp_millis(millis).map(|utc| utc.naive_utc())
}

} // verus!
