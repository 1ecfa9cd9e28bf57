use helium_crypto::{KeyTag, KeyType, Keypair, Sign};
use ingest::gate::{GateError, Network};
use ingest::naming::{discover, parse_segment_name, segment_file_name, SegmentName};
use ingest::orchestrator::{TaskGroup, TaskOutcome};
use ingest::report::{accept_report, SignedReport, StreamPolicy};
use ingest::segment::OpenSegment;
use ingest::shipper::{after_attempt, backoff_delay, RetryPolicy, Shipper, UploadAction, UploadOutcome};
use ingest::sink::{EnqueueStatus, FileSink, SinkConfig, SinkPhase};

fn config(window: u64, max_bytes: usize, capacity: usize) -> SinkConfig {
    SinkConfig { roll_window_ms: window, max_segment_bytes: max_bytes, capacity }
}

fn signed(network: helium_crypto::Network, payload: &[u8]) -> SignedReport {
    let kp = Keypair::generate_from_entropy(
        KeyTag { network, key_type: KeyType::Ed25519 },
        &[3u8; 32],
    )
    .unwrap();
    SignedReport {
        public_key: kp.public_key().to_vec(),
        signature: kp.sign(payload).unwrap(),
        payload: payload.to_vec(),
    }
}

#[test]
fn standard_config() {
    let c = SinkConfig::standard();
    assert_eq!(c.roll_window_ms, 300_000);
    assert_eq!(c.capacity, 50);
    assert_eq!(c.max_segment_bytes, 50_000_000);
}

#[test]
fn valid_report_ends_in_one_sealed_segment() {
    let policy = StreamPolicy { required_network: Network::MainNet, enforce_network: true };
    let report = signed(helium_crypto::Network::MainNet, b"beacon");
    let mut sink = FileSink::new(config(300_000, 1 << 20, 50), 1_000);
    let accepted = accept_report(policy, &report, 1_000).unwrap();
    assert_eq!(accepted.event_id.len(), 32);
    assert_eq!(sink.enqueue(&accepted.record), EnqueueStatus::Accepted);
    assert!(sink.consume_one(1_000));
    assert_eq!(sink.sealed_count(), 0);
    sink.advance(200_000);
    assert_eq!(sink.sealed_count(), 0);
    sink.advance(301_000);
    let sealed = sink.take_sealed();
    assert_eq!(sealed.len(), 1);
    assert_eq!(sealed[0].record_count, 1);
    let mut expected = (accepted.record.len() as u64).to_be_bytes().to_vec();
    expected.extend_from_slice(&accepted.record);
    assert_eq!(sealed[0].body, expected);
    assert_eq!(sealed[0].created_ms, 1_000);
    assert_eq!(sealed[0].sealed_ms, 301_000);
    // no traffic afterwards: nothing more is sealed
    sink.advance(700_000);
    assert_eq!(sink.sealed_count(), 0);
}

#[test]
fn wrong_network_touches_no_segment() {
    let policy = StreamPolicy { required_network: Network::MainNet, enforce_network: true };
    let report = signed(helium_crypto::Network::TestNet, b"beacon");
    let mut sink = FileSink::new(config(300_000, 1 << 20, 50), 0);
    let out = accept_report(policy, &report, 10);
    assert!(matches!(out, Err(GateError::InvalidNetwork)));
    sink.advance(400_000);
    assert_eq!(sink.queue_len(), 0);
    assert_eq!(sink.open_record_count(), 0);
    assert_eq!(sink.sealed_count(), 0);
}

#[test]
fn full_channel_makes_producer_wait() {
    let mut sink = FileSink::new(config(1_000, 1 << 20, 2), 0);
    assert_eq!(sink.enqueue(b"one"), EnqueueStatus::Accepted);
    assert_eq!(sink.enqueue(b"two"), EnqueueStatus::Accepted);
    assert_eq!(sink.enqueue(b"three"), EnqueueStatus::MustWait);
    assert_eq!(sink.queue_len(), 2);
    assert_eq!(sink.enqueue(b"three"), EnqueueStatus::MustWait);
    assert!(sink.consume_one(1));
    assert_eq!(sink.enqueue(b"three"), EnqueueStatus::Accepted);
    assert_eq!(sink.queue_len(), 2);
}

#[test]
fn closed_sink_refuses_records() {
    let mut sink = FileSink::new(config(1_000, 1 << 20, 2), 0);
    sink.close_intake();
    assert_eq!(sink.phase(), SinkPhase::Draining);
    assert_eq!(sink.enqueue(b"late"), EnqueueStatus::SinkClosed);
    sink.shutdown(5);
    assert_eq!(sink.phase(), SinkPhase::Closed);
    assert_eq!(sink.enqueue(b"late"), EnqueueStatus::SinkClosed);
}

#[test]
fn shutdown_keeps_every_accepted_record() {
    let mut sink = FileSink::new(config(100, 64, 50), 0);
    let mut accepted = 0usize;
    let mut t = 0u64;
    for i in 0..120u32 {
        let rec = i.to_be_bytes().to_vec();
        loop {
            match sink.enqueue(&rec) {
                EnqueueStatus::Accepted => {
                    accepted += 1;
                    break;
                }
                EnqueueStatus::MustWait => {
                    t += 3;
                    sink.consume_one(t);
                }
                EnqueueStatus::SinkClosed => panic!("sink closed"),
            }
        }
    }
    let mut segments = sink.take_sealed();
    sink.shutdown(t + 1);
    segments.extend(sink.take_sealed());
    let total: usize = segments.iter().map(|s| s.record_count).sum();
    assert_eq!(total, accepted);
    assert_eq!(accepted, 120);
    // records come out in arrival order
    let mut expected = Vec::new();
    for i in 0..120u32 {
        expected.extend_from_slice(&4u64.to_be_bytes());
        expected.extend_from_slice(&i.to_be_bytes());
    }
    let all: Vec<u8> = segments.iter().flat_map(|s| s.body.clone()).collect();
    assert_eq!(all, expected);
}

#[test]
fn segments_rotate_within_window_plus_tick() {
    let window = 100u64;
    let tick = 10u64;
    let mut sink = FileSink::new(config(window, 1 << 20, 50), 0);
    let mut t = 0u64;
    while t < 1_000 {
        assert_eq!(sink.enqueue(b"x"), EnqueueStatus::Accepted);
        t += tick;
        sink.consume_one(t);
    }
    sink.shutdown(t);
    let sealed = sink.take_sealed();
    assert!(sealed.len() >= 9);
    for s in &sealed {
        assert!(s.sealed_ms - s.created_ms <= window + tick);
    }
}

#[test]
fn size_threshold_seals_segment() {
    let mut sink = FileSink::new(config(1_000_000, 20, 50), 0);
    assert_eq!(sink.enqueue(&[1u8; 8]), EnqueueStatus::Accepted);
    assert_eq!(sink.enqueue(&[2u8; 8]), EnqueueStatus::Accepted);
    sink.consume_one(1);
    assert_eq!(sink.sealed_count(), 0);
    assert_eq!(sink.open_record_count(), 1);
    sink.consume_one(2);
    assert_eq!(sink.sealed_count(), 1);
    assert_eq!(sink.open_record_count(), 0);
}

#[test]
fn open_segment_append_frames_records() {
    let mut seg = OpenSegment::new(4, 10);
    seg.append(b"ab");
    seg.append(b"");
    assert_eq!(seg.size(), 18);
    let sealed = seg.seal(20);
    assert_eq!(sealed.record_count, 2);
    assert_eq!(sealed.body, vec![0, 0, 0, 0, 0, 0, 0, 2, b'a', b'b', 0, 0, 0, 0, 0, 0, 0, 0]);
    assert_eq!(sealed.seq, 4);
    assert_eq!(sealed.size(), 18);
}

#[test]
fn backoff_doubles_up_to_cap() {
    let p = RetryPolicy { max_attempts: 5, base_delay_ms: 100, max_delay_ms: 1_000 };
    assert_eq!(backoff_delay(p, 0), 100);
    assert_eq!(backoff_delay(p, 1), 200);
    assert_eq!(backoff_delay(p, 3), 800);
    assert_eq!(backoff_delay(p, 4), 1_000);
    assert_eq!(backoff_delay(p, 60), 1_000);
    let big = RetryPolicy { max_attempts: 5, base_delay_ms: u64::MAX, max_delay_ms: u64::MAX };
    assert_eq!(backoff_delay(big, 3), u64::MAX);
}

#[test]
fn store_fails_three_times_then_confirms() {
    let p = RetryPolicy { max_attempts: 5, base_delay_ms: 100, max_delay_ms: 10_000 };
    let outcomes = [UploadOutcome::Failed, UploadOutcome::Failed, UploadOutcome::Failed, UploadOutcome::Confirmed];
    let mut actions = Vec::new();
    for (i, o) in outcomes.iter().enumerate() {
        actions.push(after_attempt(p, i as u32 + 1, *o));
    }
    assert_eq!(
        actions,
        vec![
            UploadAction::RetryAfter(100),
            UploadAction::RetryAfter(200),
            UploadAction::RetryAfter(400),
            UploadAction::DeleteLocal
        ]
    );
}

#[test]
fn exhausted_attempts_leave_segment_on_disk() {
    let p = RetryPolicy { max_attempts: 3, base_delay_ms: 100, max_delay_ms: 10_000 };
    assert_eq!(after_attempt(p, 1, UploadOutcome::Failed), UploadAction::RetryAfter(100));
    assert_eq!(after_attempt(p, 2, UploadOutcome::Failed), UploadAction::RetryAfter(200));
    assert_eq!(after_attempt(p, 3, UploadOutcome::Failed), UploadAction::LeaveForNextPass);
    // the next discovery pass starts over and the store now confirms
    assert_eq!(after_attempt(p, 1, UploadOutcome::Confirmed), UploadAction::DeleteLocal);
}

#[test]
fn segment_names_round_trip() {
    let name = SegmentName { stream: b"witness_report".to_vec(), seq: 42, created_ms: 1_667_000_000_123 };
    let bytes = segment_file_name(&name);
    assert_eq!(bytes, b"witness_report.42.1667000000123".to_vec());
    let back = parse_segment_name(&bytes).unwrap();
    assert_eq!(back.stream, name.stream);
    assert_eq!(back.seq, 42);
    assert_eq!(back.created_ms, 1_667_000_000_123);
    let max = SegmentName { stream: b"s".to_vec(), seq: u64::MAX, created_ms: 0 };
    let back = parse_segment_name(&segment_file_name(&max)).unwrap();
    assert_eq!(back.seq, u64::MAX);
}

#[test]
fn malformed_names_are_skipped() {
    assert!(parse_segment_name(b"").is_none());
    assert!(parse_segment_name(b".1.2").is_none());
    assert!(parse_segment_name(b"s.1").is_none());
    assert!(parse_segment_name(b"s..2").is_none());
    assert!(parse_segment_name(b"s.1.").is_none());
    assert!(parse_segment_name(b"s.1x.2").is_none());
    assert!(parse_segment_name(b"s.1.2.3").is_none());
    assert!(parse_segment_name(b"s.18446744073709551616.2").is_none());
}

#[test]
fn restart_rediscovers_pending_segments() {
    let listing = vec![
        b"beacon_report.3.1000".to_vec(),
        b"tmp-file".to_vec(),
        b"witness_report.7.2000".to_vec(),
    ];
    let first = discover(&listing);
    let again = discover(&listing);
    assert_eq!(first.len(), 2);
    assert_eq!(again.len(), 2);
    assert_eq!(first[0].stream, b"beacon_report".to_vec());
    assert_eq!(first[1].seq, 7);
    assert_eq!(again[1].created_ms, first[1].created_ms);
}

#[test]
fn shipper_starts_nothing_after_stop() {
    let p = RetryPolicy { max_attempts: 3, base_delay_ms: 10, max_delay_ms: 100 };
    let mut s = Shipper::new(p);
    s.begin_pass(discover(&vec![b"a.1.1".to_vec(), b"b.2.2".to_vec()]));
    let n = s.next_upload().unwrap();
    assert_eq!(n.stream, b"a".to_vec());
    s.stop();
    assert!(s.next_upload().is_none());
    s.begin_pass(discover(&vec![b"c.3.3".to_vec()]));
    assert!(s.next_upload().is_none());
    assert_eq!(s.retry_policy(), p);
}

#[test]
fn first_failure_triggers_shutdown() {
    let mut g = TaskGroup::new(3);
    assert!(!g.is_shutdown());
    assert!(!g.record(0, TaskOutcome::Clean));
    assert!(!g.is_shutdown());
    assert!(g.record(2, TaskOutcome::Failed));
    assert!(g.is_shutdown());
    assert!(!g.all_done());
    assert!(!g.record(1, TaskOutcome::Failed));
    assert!(g.all_done());
    assert_eq!(g.result(), Err(2));
}

#[test]
fn external_shutdown_ends_cleanly() {
    let mut g = TaskGroup::new(2);
    g.request_shutdown();
    assert!(g.is_shutdown());
    assert!(!g.record(0, TaskOutcome::Clean));
    assert!(!g.record(1, TaskOutcome::Clean));
    assert!(g.all_done());
    assert_eq!(g.result(), Ok(()));
}

#[test]
fn segments_carry_increasing_sequence_numbers() {
    let mut sink = FileSink::with_first_seq(config(10, 1 << 20, 50), 0, 500);
    let mut t = 0u64;
    for _ in 0..5 {
        assert_eq!(sink.enqueue(b"r"), EnqueueStatus::Accepted);
        t += 11;
        sink.consume_one(t);
    }
    sink.shutdown(t + 20);
    let seqs: Vec<u64> = sink.take_sealed().iter().map(|s| s.seq).collect();
    assert_eq!(seqs, vec![500, 501, 502, 503, 504]);
}

#[test]
fn stamps_never_go_backwards() {
    let mut sink = FileSink::new(config(1_000, 1 << 20, 50), 100);
    assert_eq!(sink.stamp(150), 150);
    assert_eq!(sink.stamp(120), 150);
    assert_eq!(sink.clock_ms(), 150);
    assert_eq!(sink.stamp(200), 200);
}
