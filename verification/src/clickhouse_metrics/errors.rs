//! What can go wrong.
use vstd::prelude::*;

use crate::text::{copy, join2};

verus! {

/// Why metrics are not delivered.
#[derive(Debug)]
pub enum ClickhouseMetricsError {
    /// There are no credentials.
    EmptyAuth,
    /// Tokens are not supported.
    BearerUnsupported,
    /// The event is no metric.
    NotMetrics,
    /// The metric has no timestamp.
    EmptyTimestamp,
    /// The metric has a value that cannot be delivered.
    UnsupportedMetricValueType(String),
    /// The metric is of a kind that cannot be delivered.
    UnsupportedMetricKind(String),
    /// ClickHouse refused.
    ClickhouseError(String),
}

/// Why metrics are not delivered, read as characters.
pub enum ErrorView {
    EmptyAuth,
    BearerUnsupported,
    NotMetrics,
    EmptyTimestamp,
    UnsupportedMetricValueType(Seq<char>),
    UnsupportedMetricKind(Seq<char>),
    ClickhouseError(Seq<char>),
}

impl View for ClickhouseMetricsError {
    type V = ErrorView;

    open spec fn view(&self) -> ErrorView {
        match *self {
            ClickhouseMetricsError::EmptyAuth => ErrorView::EmptyAuth,
            ClickhouseMetricsError::BearerUnsupported => ErrorView::BearerUnsupported,
            ClickhouseMetricsError::NotMetrics => ErrorView::NotMetrics,
            ClickhouseMetricsError::EmptyTimestamp => ErrorView::EmptyTimestamp,
            ClickhouseMetricsError::UnsupportedMetricValueType(
                s,
            ) => ErrorView::UnsupportedMetricValueType(s@),
            ClickhouseMetricsError::UnsupportedMetricKind(s) => ErrorView::UnsupportedMetricKind(
                s@,
            ),
            ClickhouseMetricsError::ClickhouseError(s) => ErrorView::ClickhouseError(s@),
        }
    }
}

/// What an error says.
pub open spec fn error_message(e: ErrorView) -> Seq<char> {
    match e {
        ErrorView::EmptyAuth => "auth can not empty"@,
        ErrorView::BearerUnsupported => "bearer not supported"@,
        ErrorView::NotMetrics => "event must be metrics datatype"@,
        ErrorView::EmptyTimestamp => "event timestamp can not be empty"@,
        ErrorView::UnsupportedMetricValueType(t) => "unsupported metric value type "@ + t,
        ErrorView::UnsupportedMetricKind(k) => "unsupported metric kind "@ + k,
        ErrorView::ClickhouseError(_) => "clickhouse error"@,
    }
}

impl ClickhouseMetricsError {
    /// What the error says.
    pub fn message(&self) -> (r: String)
        ensures
            r@ == error_message(self@),
    {
        match self {
            ClickhouseMetricsError::EmptyAuth => copy("auth can not empty"),
            ClickhouseMetricsError::BearerUnsupported => copy("bearer not supported"),
            ClickhouseMetricsError::NotMetrics => copy("event must be metrics datatype"),
            ClickhouseMetricsError::EmptyTimestamp => copy("event timestamp can not be empty"),
            ClickhouseMetricsError::UnsupportedMetricValueType(t) => join2(
                "unsupported metric value type ",
                t.as_str(),
            ),
            ClickhouseMetricsError::UnsupportedMetricKind(k) => join2(
                "unsupported metric kind ",
                k.as_str(),
            ),
            ClickhouseMetricsError::ClickhouseError(_) => copy("clickhouse error"),
        }
    }
}

/// Each error says what is wrong, and names the kind or the type that is not supported;
/// what ClickHouse says is not repeated.
pub proof fn law_errors_say_what_is_wrong(t: Seq<char>)
    ensures
        error_message(ErrorView::EmptyAuth) == "auth can not empty"@,
        error_message(ErrorView::BearerUnsupported) == "bearer not supported"@,
        error_message(ErrorView::NotMetrics) == "event must be metrics datatype"@,
        error_message(ErrorView::EmptyTimestamp) == "event timestamp can not be empty"@,
        error_message(ErrorView::UnsupportedMetricValueType(t)) == "unsupported metric value type "@
            + t,
        error_message(ErrorView::UnsupportedMetricKind(t)) == "unsupported metric kind "@ + t,
        error_message(ErrorView::ClickhouseError(t)) == "clickhouse error"@,
{
}

} // verus!
