//! Building blocks for requesting historical price tables from a quotes
//! service: calendar dates as day counts, sampling intervals, and the
//! request address for a ticker over a span of dates.

pub mod civil;
pub mod decimal;
pub mod error;
pub mod interval;
pub mod request;
pub mod span;

pub use civil::{days_from_civil, CalendarDate};
pub use error::Error;
pub use interval::Interval;
pub use request::{history_url, url_for_span};
pub use span::request_span;
