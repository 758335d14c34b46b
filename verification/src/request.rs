//! The address from which a ticker's price history is requested.

use crate::civil::CalendarDate;
use crate::decimal::{append_decimal, decimal_text};
use crate::interval::Interval;
use crate::span::{request_span, span_is_representable, unix_midnight};
use vstd::prelude::*;

verus! {

/// The address that asks for the rows of `ticker` from the second
/// `period1` up to, and not including, the second `period2`. The ticker
/// stands in it as it is given.
pub open spec fn history_url_text(
    ticker: Seq<char>,
    period1: int,
    period2: int,
    interval: Interval,
) -> Seq<char> {
    "https://query1.finance.yahoo.com/v7/finance/download/"@ + ticker + "?period1="@
        + decimal_text(period1) + "&period2="@ + decimal_text(period2) + "&interval="@
        + interval.code() + "&events=history&includeAdjustedClose=true"@
}

/// The address for the price history of `ticker` over the Unix times from
/// `unix_from` up to `unix_to`.
pub fn url_for_span(ticker: &str, unix_from: i64, unix_to: i64, interval: &Interval) -> (url:
    String)
    ensures
        url@ == history_url_text(ticker@, unix_from as int, unix_to as int, *interval),
{
    let mut url = String::from_str("https://query1.finance.yahoo.com/v7/finance/download/");
    url.append(ticker);
    url.append("?period1=");
    append_decimal(&mut url, unix_from);
    url.append("&period2=");
    append_decimal(&mut url, unix_to);
    url.append("&interval=");
    url.append(interval.as_str());
    url.append("&events=history&includeAdjustedClose=true");
    url
}

/// The address for the price history of `ticker` on the days `from` to
/// `to`, both included: the span requested ends where the day after `to`
/// starts. There is none where the days have no span of Unix time.
pub fn history_url(ticker: &str, from: CalendarDate, to: CalendarDate, interval: Interval) -> (url:
    Option<String>)
    ensures
        url is Some <==> span_is_representable(from, to),
        url is Some ==> url->0@ == history_url_text(
            ticker@,
            unix_midnight(from),
            unix_midnight(to) + 86400,
            interval,
        ),
{
    match request_span(from, to) {
        Some((unix_from, unix_to)) => Some(url_for_span(ticker, unix_from, unix_to, &interval)),
        None => None,
    }
}

} // verus!
