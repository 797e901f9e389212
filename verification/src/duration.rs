//! Time spans.

use std::time::Duration;
use vstd::prelude::*;

verus! {

/// What `Duration::as_nanos` returns: the whole span in nanoseconds.
pub uninterp spec fn span_nanos(span: Duration) -> u128;

/// `Duration::as_nanos`: the total number of nanoseconds of the span.
pub assume_specification[ Duration::as_nanos ](span: &Duration) -> (nanos: u128)
    ensures
        nanos == span_nanos(*span),
;

/// `Duration::from_secs`: a span of the given number of whole seconds.
pub assume_specification[ Duration::from_secs ](secs: u64) -> (span: Duration)
    ensures
        span_nanos(span) == secs * 1_000_000_000,
;

/// `Duration::from_millis`: a span of the given number of milliseconds.
pub assume_specification[ Duration::from_millis ](millis: u64) -> (span: Duration)
    ensures
        span_nanos(span) == millis * 1_000_000,
;

/// `Duration` is `Copy`: its clone is the same span.
pub assume_specification[ <Duration as Clone>::clone ](span: &Duration) -> (copy: Duration)
    ensures
        copy == *span,
;

/// What the `{:?}` format of a span gives.
pub uninterp spec fn span_text(span: Duration) -> Seq<char>;

/// The `{:?}` format of a span.
#[verifier::external_body]
pub(crate) fn render_span(span: &Duration) -> (text: String)
    ensures
        text@ == span_text(*span),
{
    format!("{span:?}")
}

/// Whether a span has no length.
pub fn no_time(span: &Duration) -> (zero: bool)
    ensures
        zero == (span_nanos(*span) == 0),
{
    span.as_nanos() == 0
}

} // verus!
