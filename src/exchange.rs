//! One observation of the exchange rate.

use vstd::prelude::*;

use crate::rate::Rate;

verus! {

/// An instant, as whole seconds since the Unix epoch (UTC) and the
/// nanoseconds past that second.
#[derive(Clone, Copy, Debug, PartialEq, Eq, Structural)]
pub struct Timestamp {
    pub secs: i64,
    pub nanos: u32,
}

/// One observed rate and the instant it was quoted for.
#[derive(Clone, Copy, Debug, PartialEq, Eq, Structural)]
pub struct ExchangeRate {
    pub rate: Rate,
    pub date: Timestamp,
}

/// The instant that chrono reads from an RFC 2822 date, as seconds since the
/// Unix epoch and nanoseconds; `None` where chrono rejects the text.
pub uninterp spec fn rfc2822_instant(s: Seq<char>) -> Option<(i64, u32)>;

/// Relies on chrono's `DateTime::parse_from_rfc2822`, read back through
/// `timestamp` and `timestamp_subsec_nanos`: the instant that an RFC 2822 date
/// names, whatever its UTC offset.
#[verifier::external_body]
fn parse_rfc2822(s: &str) -> (r: Option<(i64, u32)>)
    ensures
        r == rfc2822_instant(s@),
{
    match chrono::DateTime::parse_from_rfc2822(s) {
        Ok(d) => Some((d.timestamp(), d.timestamp_subsec_nanos())),
        Err(_) => None,
    }
}

/// The observation of `rate` at `instant`, when there is one.
pub open spec fn observation(rate: Rate, instant: Option<(i64, u32)>) -> Option<ExchangeRate> {
    match instant {
        Some((secs, nanos)) => Some(ExchangeRate { rate, date: Timestamp { secs, nanos } }),
        None => None,
    }
}

impl ExchangeRate {
    /// The observation of `rate` at the instant that the RFC 2822 date `date`
    /// names (`Fri, 27 Dec 2024 00:00:01 +0000`); `None` when `date` is not
    /// such a date.
    pub fn new(rate: Rate, date: &str) -> (r: Option<ExchangeRate>)
        ensures
            r == observation(rate, rfc2822_instant(date@)),
    {
        match parse_rfc2822(date) {
            Some((secs, nanos)) => Some(ExchangeRate { rate, date: Timestamp { secs, nanos } }),
            None => None,
        }
    }
}

} // verus!
