//! The consumer-group source, driven without a broker.

use std::collections::VecDeque;
use std::time::Duration;

use iggy::prelude::{Identifier, IggyError};
use sisa_messaging::delivery::PartitionAdvance;
use sisa_messaging::failure::FailureKind;
use sisa_messaging::headers::HeaderLimits;
use sisa_messaging::provider::mapper::normalize::HeaderVerdict;
use sisa_messaging::provider::sdk::PolledMessage;
use sisa_messaging::provider::source::model::{Membership, Outcome, PollFrom, Stop};
use sisa_messaging::provider::source::state::{
    stop, OpenReply, OpenStep, Opening, PollReply, ReceiveStep, RefreshReply, RefreshStep,
    Refreshing, StoreReply,
};
use sisa_messaging::provider::source::wire::record;
use sisa_messaging::provider::{
    IggyDelivery, IggyDeliveryErrorKind, IggyDeliverySource, IggyEnvelopeMapper,
    IggyMappingError, IggySourceSettings,
};

const POLL: u64 = 1_000_000;

const REFRESH: u64 = 1_000_000_000;

fn settings() -> IggySourceSettings {
    IggySourceSettings::new(
        Identifier::from_str_value("orders").unwrap(),
        Identifier::from_str_value("order-created").unwrap(),
        Identifier::from_str_value("orders-projection").unwrap(),
    )
    .with_batch_length(4)
    .unwrap()
    .with_poll_interval(Duration::from_nanos(POLL))
    .unwrap()
    .with_assignment_refresh_interval(Duration::from_nanos(REFRESH))
    .unwrap()
}

fn opened(partitions: Vec<u32>) -> IggyDeliverySource {
    let mut source = IggyDeliverySource::new(&settings(), 0);
    let mut at = source.begin_open().expect("the source is not open yet");

    for reply in [
        OpenReply::Session(true),
        OpenReply::Stream(Some(1)),
        OpenReply::Topic(Some((2, partitions))),
        OpenReply::Group(Some(3)),
    ] {
        at = match source.open_step(at, reply, 0) {
            OpenStep::Next(next) => next,
            _ => panic!("opening goes on"),
        };
    }

    assert!(matches!(
        source.open_step(at, OpenReply::Joined, 0),
        OpenStep::Opened
    ));
    assert!(source.begin_open().is_none());
    source
}

fn message(offset: u64) -> PolledMessage {
    PolledMessage {
        id: u128::from(offset) + 100,
        offset,
        payload: b"body".to_vec(),
        carries_headers: false,
        headers: None,
    }
}

fn polled(partition_id: u32, offsets: &[u64]) -> PollReply {
    PollReply::Polled {
        partition_id,
        messages: offsets.iter().map(|offset| message(*offset)).collect(),
    }
}

fn next(source: &mut IggyDeliverySource, outcomes: Vec<Outcome>, now: u64) -> ReceiveStep {
    source.next_step(&outcomes, now)
}

fn expect_poll(source: &mut IggyDeliverySource, now: u64) -> usize {
    match next(source, Vec::new(), now) {
        ReceiveStep::Poll(index) => index,
        _ => panic!("a partition is polled next"),
    }
}

fn expect_delivery(source: &mut IggyDeliverySource, outcomes: Vec<Outcome>, now: u64) -> IggyDelivery {
    match next(source, outcomes, now) {
        ReceiveStep::Deliver(delivery) => delivery,
        _ => panic!("a record is delivered next"),
    }
}

#[test]
fn opening_stops_at_the_first_missing_resource() {
    for missing in 0..3 {
        let mut source = IggyDeliverySource::new(&settings(), 0);
        let mut at = Opening::Stream;
        let replies = [
            (OpenReply::Stream(Some(1)), OpenReply::Stream(None)),
            (OpenReply::Topic(Some((2, vec![0]))), OpenReply::Topic(None)),
            (OpenReply::Group(Some(3)), OpenReply::Group(None)),
        ];

        for (index, (found, absent)) in replies.into_iter().enumerate() {
            let reply = if index == missing { absent } else { found };

            match source.open_step(at, reply, 0) {
                OpenStep::Next(next) => at = next,
                OpenStep::Failed(error) => {
                    assert_eq!(index, missing);
                    assert_eq!(error.kind(), IggyDeliveryErrorKind::NotFound);
                    assert_eq!(error.classify(), FailureKind::Permanent);
                    break;
                }
                OpenStep::Opened => panic!("the source must not open"),
            }
        }

        assert!(source.begin_open().is_some());
    }
}

#[test]
fn opening_needs_a_connected_client() {
    let mut source = IggyDeliverySource::new(&settings(), 0);
    let OpenStep::Failed(error) = source.open_step(Opening::Session, OpenReply::Session(false), 0)
    else {
        panic!("opening must fail");
    };
    assert_eq!(error.kind(), IggyDeliveryErrorKind::Disconnected);
    assert_eq!(error.classify(), FailureKind::Transient);

    let stopped = OpenReply::Stopped(Stop::Closed);
    let OpenStep::Failed(error) = source.open_step(Opening::Stream, stopped, 0) else {
        panic!("opening must fail");
    };
    assert_eq!(error.kind(), IggyDeliveryErrorKind::Disconnected);
}

#[test]
fn records_arrive_in_offset_order_one_at_a_time() {
    let mut source = opened(vec![0]);
    let index = expect_poll(&mut source, 0);
    let request = source.poll_request(index);

    assert_eq!(request.partition, 0);
    assert_eq!(request.from, PollFrom::Stored);
    assert_eq!(request.count, 4);
    assert!(!request.auto_commit);

    assert!(source.poll(index, polled(0, &[5, 6]), 0).is_ok());

    let first = expect_delivery(&mut source, Vec::new(), 0);
    assert_eq!(first.settlement.partition(), 0);
    assert_eq!(first.settlement.offset(), 5);
    assert_eq!(first.record.id, 105);
    assert_eq!(first.record.payload, b"body");

    // The next record waits until this one is resolved.
    assert!(!matches!(
        next(&mut source, Vec::new(), 0),
        ReceiveStep::Deliver(_)
    ));

    let advanced = vec![first.settlement.outcome(true)];
    let second = expect_delivery(&mut source, advanced, 0);
    assert_eq!(second.settlement.offset(), 6);
}

#[test]
fn later_polls_continue_after_the_last_buffered_record() {
    let mut source = opened(vec![0]);
    let index = expect_poll(&mut source, 0);
    assert!(source.poll(index, polled(0, &[5, 6]), 0).is_ok());

    let first = expect_delivery(&mut source, Vec::new(), 0);
    let second = expect_delivery(&mut source, vec![first.settlement.outcome(true)], 0);
    let advanced = vec![second.settlement.outcome(true)];

    let ReceiveStep::Poll(index) = next(&mut source, advanced, POLL) else {
        panic!("the partition is polled next");
    };
    assert_eq!(source.poll_request(index).from, PollFrom::Offset(7));

    // Records taken before are skipped.
    assert!(source.poll(index, polled(0, &[5, 6, 7]), POLL).is_ok());
    let third = expect_delivery(&mut source, Vec::new(), POLL);
    assert_eq!(third.settlement.offset(), 7);
}

#[test]
fn a_withdrawn_record_is_reported_and_replayed_from_its_own_offset() {
    let mut source = opened(vec![0]);
    let index = expect_poll(&mut source, 0);
    assert!(source.poll(index, polled(0, &[5, 6]), 0).is_ok());
    let first = expect_delivery(&mut source, Vec::new(), 0);

    let withdrawn = vec![first.settlement.outcome(false)];
    assert!(matches!(
        next(&mut source, withdrawn, 10),
        ReceiveStep::OwnershipLost(0)
    ));

    let ReceiveStep::Wait(wake) = next(&mut source, Vec::new(), 10) else {
        panic!("the replay waits one poll interval");
    };
    assert_eq!(wake, 10 + POLL);

    let index = expect_poll(&mut source, wake);
    assert_eq!(source.poll_request(index).from, PollFrom::Offset(5));
    assert!(source.poll(index, polled(0, &[5, 6]), wake).is_ok());

    let replayed = expect_delivery(&mut source, Vec::new(), wake);
    assert_eq!(replayed.settlement.offset(), 5);

    // The outcome of the first delivery is out of date by now.
    let stale = vec![first.settlement.outcome(true)];
    assert!(!matches!(
        next(&mut source, stale, wake),
        ReceiveStep::Deliver(_)
    ));
}

#[test]
fn a_poll_that_skips_the_expected_offset_fails_the_source_permanently() {
    let mut source = opened(vec![0]);
    let index = expect_poll(&mut source, 0);

    let Err(Stop::Failed(error)) = source.poll(index, polled(0, &[5, 7]), 0) else {
        panic!("the gap must fail the source");
    };
    assert_eq!(error.kind(), IggyDeliveryErrorKind::OffsetGap);
    assert_eq!(error.classify(), FailureKind::Permanent);
    assert!(matches!(
        source.finish_step(Err(Stop::Failed(error))),
        Err(failed) if failed == error
    ));
    assert!(!source.is_closed());
}

#[test]
fn a_fenced_partition_is_given_up_and_refreshed_at_once() {
    let mut source = opened(vec![0]);
    let index = expect_poll(&mut source, 0);
    assert!(source.poll(index, polled(0, &[]), 0).is_ok());

    let index = expect_poll(&mut source, POLL);
    let fence = PollReply::Failed {
        code: IggyError::ConsumerGroupPartitionNotOwned(3, 0).as_code(),
        shut_down: false,
    };
    assert!(source.poll(index, fence, POLL).is_ok());
    assert!(matches!(
        next(&mut source, Vec::new(), POLL),
        ReceiveStep::Refresh
    ));
}

#[test]
fn a_lost_membership_withdraws_the_delivered_record() {
    let mut source = opened(vec![0]);
    let index = expect_poll(&mut source, 0);
    assert!(source.poll(index, polled(0, &[5]), 0).is_ok());
    let first = expect_delivery(&mut source, Vec::new(), 0);

    source.refresh_step(Refreshing::Client, RefreshReply::Client(Vec::new()), POLL);
    assert!(matches!(
        next(&mut source, vec![first.settlement.outcome(true)], POLL),
        ReceiveStep::OwnershipLost(0)
    ));
}

#[test]
fn a_refresh_rejoins_the_group_and_reloads_the_partitions() {
    let mut source = opened(vec![0]);
    assert_eq!(source.partition_count(), 1);
    assert!(matches!(
        next(&mut source, Vec::new(), REFRESH),
        ReceiveStep::Refresh
    ));

    let elsewhere = vec![Membership {
        stream: 1,
        topic: 2,
        group: 4,
    }];
    assert!(matches!(
        source.refresh_step(Refreshing::Client, RefreshReply::Client(elsewhere), REFRESH),
        RefreshStep::Next(Refreshing::Rejoin)
    ));
    assert!(matches!(
        source.refresh_step(Refreshing::Rejoin, RefreshReply::Joined, REFRESH),
        RefreshStep::Next(Refreshing::Topic)
    ));
    assert!(matches!(
        source.refresh_step(
            Refreshing::Topic,
            RefreshReply::Topic(Some(vec![0, 1])),
            REFRESH
        ),
        RefreshStep::Done
    ));
    assert_eq!(source.partition_count(), 2);

    let member = vec![Membership {
        stream: 1,
        topic: 2,
        group: 3,
    }];
    assert!(matches!(
        source.refresh_step(Refreshing::Client, RefreshReply::Client(member), REFRESH),
        RefreshStep::Next(Refreshing::Topic)
    ));
    assert!(matches!(
        source.refresh_step(Refreshing::Topic, RefreshReply::Topic(None), REFRESH),
        RefreshStep::Stopped(Stop::Failed(error))
            if error.kind() == IggyDeliveryErrorKind::NotFound
                && error.classify() == FailureKind::Permanent
    ));
}

#[test]
fn shutting_the_client_down_closes_the_source() {
    let mut source = opened(vec![0]);
    let index = expect_poll(&mut source, 0);
    let code = IggyError::ClientShutdown.as_code();
    let reply = PollReply::Failed {
        code,
        shut_down: true,
    };

    let result = source.poll(index, reply, 0);
    assert!(matches!(result, Err(Stop::Closed)));
    assert!(matches!(source.finish_step(result), Ok(false)));
    assert!(source.is_closed());
    for now in [0, POLL, REFRESH] {
        assert!(matches!(
            next(&mut source, Vec::new(), now),
            ReceiveStep::Closed
        ));
    }

    assert!(matches!(
        stop(code, false),
        Stop::Failed(error) if error.kind() == IggyDeliveryErrorKind::Disconnected
    ));
}

#[test]
fn withdrawn_partitions_are_reported_before_any_record() {
    let mut source = opened(vec![0, 1, 2]);

    for index in 0..3 {
        let partition = source.poll_request(index).partition;
        assert!(source.poll(index, polled(partition, &[5, 6]), 0).is_ok());
    }
    let first = expect_delivery(&mut source, Vec::new(), 0);
    let second = expect_delivery(&mut source, Vec::new(), 0);

    let withdrawn = vec![
        first.settlement.outcome(false),
        second.settlement.outcome(false),
    ];
    assert!(matches!(
        next(&mut source, withdrawn, 1),
        ReceiveStep::OwnershipLost(0)
    ));
    assert!(matches!(
        next(&mut source, Vec::new(), 1),
        ReceiveStep::OwnershipLost(1)
    ));
    let third = expect_delivery(&mut source, Vec::new(), 1);
    assert_eq!(third.settlement.partition(), 2);
}

#[test]
fn a_timed_out_poll_is_transient() {
    let mut source = opened(vec![0]);
    let index = expect_poll(&mut source, 0);

    assert!(matches!(
        source.poll(index, PollReply::TimedOut, 0),
        Err(Stop::Failed(error)) if error.kind() == IggyDeliveryErrorKind::Timeout
            && error.classify() == FailureKind::Transient
    ));
}

#[test]
fn partitions_take_turns() {
    let mut source = opened(vec![0, 1, 2]);
    let mut seen = VecDeque::new();

    for _ in 0..3 {
        let index = expect_poll(&mut source, 0);
        let partition = source.poll_request(index).partition;
        seen.push_back(partition);
        assert!(source.poll(index, polled(partition, &[]), 0).is_ok());
    }

    assert_eq!(seen, [0, 1, 2]);
    assert!(matches!(
        next(&mut source, Vec::new(), 0),
        ReceiveStep::Wait(_)
    ));
}

#[test]
fn stored_offsets_advance_and_failures_do_not() {
    let mut source = opened(vec![0]);
    let index = expect_poll(&mut source, 0);
    assert!(source.poll(index, polled(0, &[5]), 0).is_ok());
    let settlement = expect_delivery(&mut source, Vec::new(), 0).settlement;

    assert!(matches!(
        settlement.advance(StoreReply::Stored),
        Ok(PartitionAdvance::Advanced)
    ));
    assert!(matches!(
        settlement.advance(StoreReply::Failed(IggyError::InvalidOffset(9).as_code())),
        Err(error) if error.kind() == IggyDeliveryErrorKind::Rejected
    ));
    assert!(matches!(
        settlement.advance(StoreReply::TimedOut),
        Err(error) if error.kind() == IggyDeliveryErrorKind::Timeout
    ));
}

fn decode(message: PolledMessage) -> Result<(), IggyMappingError> {
    let wire = record(message);
    let verdicts: Vec<HeaderVerdict> = wire
        .headers
        .iter()
        .map(|_| HeaderVerdict {
            name_accepted: true,
            value_accepted: true,
        })
        .collect();
    let limits = HeaderLimits {
        max_count: 64,
        max_bytes: 65_536,
    };

    IggyEnvelopeMapper.decode(wire, &verdicts, limits).map(|_| ())
}

#[test]
fn unreadable_headers_decode_as_an_invalid_header() {
    let mut garbled = message(1);
    garbled.carries_headers = true;
    assert_eq!(decode(garbled), Err(IggyMappingError::InvalidHeader));

    let mut not_text = message(1);
    not_text.carries_headers = true;
    not_text.headers = Some(vec![(vec![0xff, 0xfe], b"value".to_vec())]);
    assert_eq!(decode(not_text), Err(IggyMappingError::InvalidHeader));

    assert_eq!(
        decode(message(1)),
        Err(IggyMappingError::MissingRequiredHeader)
    );
}
