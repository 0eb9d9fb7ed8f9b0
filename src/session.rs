use vstd::prelude::*;

verus! {

// The session rule here is this library's own model: a trading date is a day
// number since the epoch of the local timestamp, trading days are Monday to
// Friday, and the session is one fixed span of hours on each of them. It knows
// no holidays, half days or time zones; a caller whose market has those
// converts timestamps to local time before building quotes.

/// Milliseconds in one day.
pub const DAY_MS: u64 = 86_400_000;

/// One market quote tick, as far as labelling needs it.
///
/// `timestamp` is the exchange-local wall-clock time in milliseconds since
/// the epoch; the trading date and session membership derive from it.
#[derive(Clone, Copy, Debug, PartialEq, Eq, Structural)]
pub struct QuoteEvent {
    pub event_id: u64,
    pub offset: u64,
    pub partition: u32,
    pub timestamp: u64,
}

/// Daily trading hours, as milliseconds after local midnight: a quote is in
/// session when `open_ms <= time of day < close_ms` on a weekday.
#[derive(Clone, Copy, Debug, PartialEq, Eq, Structural)]
pub struct TradingHours {
    pub open_ms: u64,
    pub close_ms: u64,
}

/// Day number (days since the epoch) of a local timestamp.
pub open spec fn day_of(ts: u64) -> int {
    ts as int / DAY_MS as int
}

/// Time of day of a local timestamp, in milliseconds after midnight.
pub open spec fn time_of_day(ts: u64) -> int {
    ts as int % DAY_MS as int
}

/// Monday to Friday. Day 0 (1970-01-01) was a Thursday.
pub open spec fn is_weekday(day: int) -> bool {
    (day + 3) % 7 < 5
}

/// The quote lies inside trading hours on a trading day.
pub open spec fn in_session_spec(hours: TradingHours, e: QuoteEvent) -> bool {
    &&& is_weekday(day_of(e.timestamp))
    &&& hours.open_ms <= time_of_day(e.timestamp)
    &&& time_of_day(e.timestamp) < hours.close_ms
}

/// The quote lies inside trading hours on the trading date `date`.
pub open spec fn fits_date_spec(hours: TradingHours, e: QuoteEvent, date: int) -> bool {
    in_session_spec(hours, e) && day_of(e.timestamp) == date
}

/// Trading date (day number) of a quote.
pub fn trading_date(e: &QuoteEvent) -> (r: u64)
    ensures
        r == day_of(e.timestamp),
{
    e.timestamp / DAY_MS
}

/// Whether a quote lies inside trading hours on a trading day.
pub fn in_session(hours: &TradingHours, e: &QuoteEvent) -> (r: bool)
    ensures
        r == in_session_spec(*hours, *e),
{
    let day = e.timestamp / DAY_MS;
    let tod = e.timestamp % DAY_MS;
    let weekday = (day + 3) % 7;
    weekday < 5 && hours.open_ms <= tod && tod < hours.close_ms
}

/// Whether a quote lies inside trading hours on the trading date `date`.
pub fn fits_date(hours: &TradingHours, e: &QuoteEvent, date: u64) -> (r: bool)
    ensures
        r == fits_date_spec(*hours, *e, date as int),
{
    in_session(hours, e) && trading_date(e) == date
}

} // verus!
