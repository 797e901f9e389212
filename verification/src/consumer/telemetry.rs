//! The remote span that a delivery continues, and the names of what a consumer measures.

use crate::envelope::Metadata;
use crate::ids::{all_hex, hex_digit_value, hex_value, lemma_hex_bound, sixteen_to};
use crate::text::{chars_of, text_between};
use opentelemetry::trace::{SpanContext, SpanId, TraceFlags, TraceId, TraceState};
use std::num::ParseIntError;
use vstd::prelude::*;

verus! {

/// The instrumentation scope of every metric, span, and event.
pub const TARGET: &'static str = "messaging.consumer";

/// The metric of deliveries that were received and not yet settled.
pub const IN_FLIGHT_METRIC: &'static str = "consumer.in.flight";

#[verifier::external_type_specification]
#[verifier::external_body]
pub struct ExParseIntError(std::num::ParseIntError);

#[verifier::external_type_specification]
#[verifier::external_body]
pub struct ExTraceId(opentelemetry::trace::TraceId);

#[verifier::external_type_specification]
#[verifier::external_body]
pub struct ExSpanId(opentelemetry::trace::SpanId);

#[verifier::external_type_specification]
#[verifier::external_body]
pub struct ExTraceFlags(opentelemetry::trace::TraceFlags);

#[verifier::external_type_specification]
#[verifier::external_body]
pub struct ExTraceState(opentelemetry::trace::TraceState);

#[verifier::external_type_specification]
#[verifier::external_body]
pub struct ExSpanContext(opentelemetry::trace::SpanContext);

/// The number of a trace.
pub uninterp spec fn trace_number(id: TraceId) -> u128;

/// The number of a span.
pub uninterp spec fn span_number(id: SpanId) -> u64;

/// The bits of trace flags.
pub uninterp spec fn flag_bits(flags: TraceFlags) -> u8;

/// The list members of a trace state.
pub uninterp spec fn state_members(state: TraceState) -> Seq<(Seq<char>, Seq<char>)>;

/// What `TraceState`'s `FromStr` reads from a `tracestate` header: its list members, or nothing.
pub uninterp spec fn parsed_state(text: Seq<char>) -> Option<Seq<(Seq<char>, Seq<char>)>>;

/// What a span context holds.
pub uninterp spec fn span_facts(context: SpanContext) -> SpanFacts;

/// [`SpanContext`] as mathematical values.
#[verifier::ext_equal]
pub struct SpanFacts {
    pub trace_id: u128,
    pub span_id: u64,
    pub flags: u8,
    pub is_remote: bool,
    pub state: Seq<(Seq<char>, Seq<char>)>,
}

/// A lower-case hexadecimal digit.
pub open spec fn is_lower_hex(c: char) -> bool {
    '0' <= c <= '9' || 'a' <= c <= 'f'
}

/// A row of lower-case hexadecimal digits.
pub open spec fn all_lower_hex(text: Seq<char>) -> bool {
    forall|i: int| 0 <= i < text.len() ==> is_lower_hex(#[trigger] text[i])
}

/// `TraceId::from_hex`: 32 lower-case hexadecimal digits are read as the trace's number. What it
/// makes of other texts is not stated.
pub assume_specification[ TraceId::from_hex ](hex: &str) -> (id: Result<TraceId, ParseIntError>)
    requires
        hex@.len() == 32,
        all_lower_hex(hex@),
    ensures
        id matches Ok(id) && trace_number(id) == hex_value(hex@),
;

/// `SpanId::from_hex`: 16 lower-case hexadecimal digits are read as the span's number. What it
/// makes of other texts is not stated.
pub assume_specification[ SpanId::from_hex ](hex: &str) -> (id: Result<SpanId, ParseIntError>)
    requires
        hex@.len() == 16,
        all_lower_hex(hex@),
    ensures
        id matches Ok(id) && span_number(id) == hex_value(hex@),
;

/// `TraceFlags::new`: flags with the given bits.
pub assume_specification[ TraceFlags::new ](flags: u8) -> (made: TraceFlags)
    ensures
        flag_bits(made) == flags,
;

/// `TraceState`'s `FromStr`: the list members of a `tracestate` header, if it is a valid one.
#[verifier::external_body]
fn parse_state(text: &str) -> (state: Option<TraceState>)
    ensures
        match state {
            Some(state) => parsed_state(text@) == Some(state_members(state)),
            None => parsed_state(text@) is None,
        },
{
    text.parse::<TraceState>().ok()
}

/// `TraceState::default`: a state without list members.
pub assume_specification[ <TraceState as Default>::default ]() -> (state: TraceState)
    ensures
        state_members(state) == Seq::<(Seq<char>, Seq<char>)>::empty(),
;

/// The facts that a span context is made of.
pub open spec fn made_of(
    trace_id: TraceId,
    span_id: SpanId,
    trace_flags: TraceFlags,
    is_remote: bool,
    trace_state: TraceState,
) -> SpanFacts {
    SpanFacts {
        trace_id: trace_number(trace_id),
        span_id: span_number(span_id),
        flags: flag_bits(trace_flags),
        is_remote,
        state: state_members(trace_state),
    }
}

/// Whether facts name a trace and a span.
pub open spec fn is_valid_span(facts: SpanFacts) -> bool {
    facts.trace_id != 0 && facts.span_id != 0
}

/// `SpanContext::new`: a context that holds its arguments.
pub assume_specification[ SpanContext::new ](
    trace_id: TraceId,
    span_id: SpanId,
    trace_flags: TraceFlags,
    is_remote: bool,
    trace_state: TraceState,
) -> (context: SpanContext)
    ensures
        span_facts(context) == made_of(trace_id, span_id, trace_flags, is_remote, trace_state),
;

/// `SpanContext::is_valid`: whether neither the trace nor the span is zero.
pub assume_specification[ SpanContext::is_valid ](context: &SpanContext) -> (valid: bool)
    ensures
        valid == is_valid_span(span_facts(*context)),
;

/// A `traceparent` of version `00`: `00-`, the trace in 32 lower-case hexadecimal digits, the span
/// in 16, and the flags in two, parted by hyphens.
pub open spec fn is_traceparent(text: Seq<char>) -> bool {
    &&& text.len() == 55
    &&& text[0] == '0' && text[1] == '0'
    &&& text[2] == '-' && text[35] == '-' && text[52] == '-'
    &&& all_lower_hex(text.subrange(3, 35))
    &&& all_lower_hex(text.subrange(36, 52))
    &&& all_lower_hex(text.subrange(53, 55))
}

/// The remote span that trace metadata names, if it names a valid one. A `tracestate` that cannot
/// be read counts as empty.
pub open spec fn remote_span(
    traceparent: Option<Seq<char>>,
    tracestate: Option<Seq<char>>,
) -> Option<SpanFacts> {
    match traceparent {
        Some(parent) if is_traceparent(parent) => {
            let facts = SpanFacts {
                trace_id: hex_value(parent.subrange(3, 35)) as u128,
                span_id: hex_value(parent.subrange(36, 52)) as u64,
                flags: hex_value(parent.subrange(53, 55)) as u8,
                is_remote: true,
                state: match tracestate {
                    Some(text) => match parsed_state(text) {
                        Some(members) => members,
                        None => Seq::empty(),
                    },
                    None => Seq::empty(),
                },
            };
            if is_valid_span(facts) {
                Some(facts)
            } else {
                None
            }
        },
        _ => None,
    }
}

/// Reads the remote span that a delivery continues from its metadata.
pub fn remote_span_context(metadata: &Metadata) -> (context: Option<SpanContext>)
    ensures
        match context {
            Some(context) => remote_span(metadata@.traceparent, metadata@.tracestate) == Some(
                span_facts(context),
            ),
            None => remote_span(metadata@.traceparent, metadata@.tracestate) is None,
        },
{
    let Some(parent) = &metadata.trace.traceparent else {
        return None;
    };
    let parent = chars_of(parent.as_str());

    if parent.len() != 55 || parent[0] != '0' || parent[1] != '0' || parent[2] != '-' || parent[35]
        != '-' || parent[52] != '-' {
        return None;
    }
    if !lower_hex(&parent, 3, 35) || !lower_hex(&parent, 36, 52) || !lower_hex(&parent, 53, 55) {
        return None;
    }

    let trace_id = match TraceId::from_hex(text_between(&parent, 3, 35).as_str()) {
        Ok(id) => id,
        Err(_) => return None,
    };
    let span_id = match SpanId::from_hex(text_between(&parent, 36, 52).as_str()) {
        Ok(id) => id,
        Err(_) => return None,
    };

    proof {
        let digits = parent@.subrange(53, 55);
        assert(digits[0] == parent@[53] && digits[1] == parent@[54]);
    }
    let flags: u8 = digit(parent[53]) * 16 + digit(parent[54]);

    proof {
        let digits = parent@.subrange(53, 55);
        assert(digits.drop_last() =~= seq![parent@[53]]);
        assert(digits.drop_last().drop_last() =~= Seq::<char>::empty());
        reveal_with_fuel(hex_value, 3);
        assert(flags == hex_value(digits));
    }

    let parsed = match &metadata.trace.tracestate {
        Some(text) => parse_state(text.as_str()),
        None => None,
    };
    let state = match parsed {
        Some(state) => state,
        None => TraceState::default(),
    };

    let context = SpanContext::new(trace_id, span_id, TraceFlags::new(flags), true, state);

    if context.is_valid() {
        Some(context)
    } else {
        None
    }
}

/// Whether the characters in a range are lower-case hexadecimal digits.
fn lower_hex(chars: &Vec<char>, from: usize, to: usize) -> (all: bool)
    requires
        from <= to <= chars@.len(),
    ensures
        all == all_lower_hex(chars@.subrange(from as int, to as int)),
{
    let ghost digits = chars@.subrange(from as int, to as int);
    let mut i: usize = from;

    while i < to
        invariant
            from <= i <= to <= chars@.len(),
            digits == chars@.subrange(from as int, to as int),
            forall|k: int| 0 <= k < i - from ==> is_lower_hex(#[trigger] digits[k]),
        decreases to - i,
    {
        let c = chars[i];

        if !('0' <= c && c <= '9' || 'a' <= c && c <= 'f') {
            assert(!is_lower_hex(digits[i - from]));
            return false;
        }
        i = i + 1;
    }

    true
}

/// The value of a lower-case hexadecimal digit.
fn digit(c: char) -> (value: u8)
    requires
        is_lower_hex(c),
    ensures
        hex_digit_value(c) == Some(value as nat),
        value < 16,
{
    if c <= '9' {
        (c as u32 - '0' as u32) as u8
    } else {
        (c as u32 - 'a' as u32 + 10) as u8
    }
}

/// Which span a delivery's processing continues.
#[derive(Clone, Copy, Debug, PartialEq, Eq, Structural)]
pub enum SpanParent {
    /// The remote span, with a link to the ambient one where that is valid.
    Remote {
        /// Whether the ambient span is linked.
        linked: bool,
    },

    /// The ambient span.
    Ambient,
}

/// Decides which span a delivery's processing continues: the remote one, if there is one.
pub fn span_parent(remote: bool, ambient_valid: bool) -> (parent: SpanParent)
    ensures
        parent == if remote {
            SpanParent::Remote { linked: ambient_valid }
        } else {
            SpanParent::Ambient
        },
{
    if remote {
        SpanParent::Remote { linked: ambient_valid }
    } else {
        SpanParent::Ambient
    }
}

/// What a delivery without a readable `tracestate` continues is told by its `traceparent` alone.
pub proof fn law_unreadable_state_counts_as_none(parent: Option<Seq<char>>, state: Seq<char>)
    requires
        parsed_state(state) is None,
    ensures
        remote_span(parent, Some(state)) == remote_span(parent, None),
{
}

/// A remote span is always valid and marked as remote.
pub proof fn law_remote_spans_are_valid(parent: Option<Seq<char>>, state: Option<Seq<char>>)
    ensures
        remote_span(parent, state) matches Some(facts) ==> is_valid_span(facts) && facts.is_remote,
{
}

/// A `traceparent` of version `00` with the given digits.
pub open spec fn traceparent_of(trace: Seq<char>, span: Seq<char>, flags: Seq<char>) -> Seq<char> {
    seq!['0', '0', '-'] + trace + seq!['-'] + span + seq!['-'] + flags
}

proof fn lemma_lower_hex_value(digits: Seq<char>, bound: nat)
    requires
        all_lower_hex(digits),
        bound == sixteen_to(digits.len()),
    ensures
        hex_value(digits) < bound,
{
    assert(all_hex(digits)) by {
        assert forall|i: int| 0 <= i < digits.len() implies hex_digit_value(
            #[trigger] digits[i],
        ) is Some by {
            assert(is_lower_hex(digits[i]));
        }
    }
    lemma_hex_bound(digits);
}

/// A `traceparent` of version `00` whose digits are all lower-case is continued exactly if neither
/// its trace nor its span is zero: as a remote span with just these numbers and flags, and with
/// the list members of the `tracestate` where that can be read.
pub proof fn law_well_formed_traces_are_continued(
    trace: Seq<char>,
    span: Seq<char>,
    flags: Seq<char>,
    state: Option<Seq<char>>,
)
    requires
        trace.len() == 32,
        span.len() == 16,
        flags.len() == 2,
        all_lower_hex(trace),
        all_lower_hex(span),
        all_lower_hex(flags),
    ensures
        ({
            let remote = remote_span(Some(traceparent_of(trace, span, flags)), state);
            &&& remote is Some <==> hex_value(trace) != 0 && hex_value(span) != 0
            &&& remote matches Some(facts) ==> {
                &&& facts.trace_id == hex_value(trace)
                &&& facts.span_id == hex_value(span)
                &&& facts.flags == hex_value(flags)
                &&& facts.is_remote
                &&& match state {
                    Some(text) => if parsed_state(text) is Some {
                        facts.state == parsed_state(text)->Some_0
                    } else {
                        facts.state.len() == 0
                    },
                    None => facts.state.len() == 0,
                }
            }
        }),
{
    let text = traceparent_of(trace, span, flags);
    assert(text.subrange(3, 35) =~= trace);
    assert(text.subrange(36, 52) =~= span);
    assert(text.subrange(53, 55) =~= flags);
    assert(sixteen_to(32) == 0x1_0000_0000_0000_0000_0000_0000_0000_0000) by {
        reveal_with_fuel(sixteen_to, 33);
    }
    assert(sixteen_to(16) == 0x1_0000_0000_0000_0000) by {
        reveal_with_fuel(sixteen_to, 17);
    }
    assert(sixteen_to(2) == 0x100) by {
        reveal_with_fuel(sixteen_to, 3);
    }
    lemma_lower_hex_value(trace, sixteen_to(32));
    lemma_lower_hex_value(span, sixteen_to(16));
    lemma_lower_hex_value(flags, sixteen_to(2));
}

/// Nothing but a well-formed `traceparent` is continued.
pub proof fn law_only_well_formed_traces_are_continued(
    parent: Option<Seq<char>>,
    state: Option<Seq<char>>,
)
    requires
        remote_span(parent, state) is Some,
    ensures
        exists|trace: Seq<char>, span: Seq<char>, flags: Seq<char>|
            {
                &&& parent == Some(#[trigger] traceparent_of(trace, span, flags))
                &&& trace.len() == 32 && all_lower_hex(trace)
                &&& span.len() == 16 && all_lower_hex(span)
                &&& flags.len() == 2 && all_lower_hex(flags)
            },
{
    let text = parent->Some_0;
    let trace = text.subrange(3, 35);
    let span = text.subrange(36, 52);
    let flags = text.subrange(53, 55);
    assert(text =~= traceparent_of(trace, span, flags));
}

} // verus!
