use ingest::event_id::generate_id;
use ingest::segment::{decode_frames, OpenSegment};
use ingest::sink::{EnqueueStatus, FileSink, SinkConfig};

#[test]
fn sealed_body_decodes_to_records() {
    let mut seg = OpenSegment::new(1, 0);
    seg.append(b"first");
    seg.append(b"");
    seg.append(&[0u8; 300]);
    let sealed = seg.seal(10);
    let records = decode_frames(&sealed.body).unwrap();
    assert_eq!(records, vec![b"first".to_vec(), vec![], vec![0u8; 300]]);
}

#[test]
fn empty_body_decodes_to_no_records() {
    assert_eq!(decode_frames(&[]), Some(vec![]));
}

#[test]
fn malformed_bodies_are_refused() {
    // shorter than a length prefix
    assert_eq!(decode_frames(&[0, 0, 0]), None);
    // length beyond the end of the body
    assert_eq!(decode_frames(&[0, 0, 0, 0, 0, 0, 0, 5, 1, 2]), None);
    // a whole frame followed by a torn one
    assert_eq!(decode_frames(&[0, 0, 0, 0, 0, 0, 0, 1, 9, 0, 0]), None);
    // a length that would overflow
    assert_eq!(decode_frames(&[255, 255, 255, 255, 255, 255, 255, 255, 1]), None);
}

#[test]
fn manifest_describes_segment() {
    let mut seg = OpenSegment::new(9, 100);
    seg.append(b"abc");
    let sealed = seg.seal(250);
    let m = sealed.manifest();
    assert_eq!(m.seq, 9);
    assert_eq!(m.created_ms, 100);
    assert_eq!(m.sealed_ms, 250);
    assert_eq!(m.record_count, 1);
    assert_eq!(m.size, 11);
    assert_eq!(m.checksum, generate_id(&sealed.body, b"", b""));
    assert_eq!(m.checksum.len(), 32);
}

#[test]
fn sink_segments_decode_in_arrival_order() {
    let config = SinkConfig { roll_window_ms: 50, max_segment_bytes: 1 << 16, capacity: 4 };
    let mut sink = FileSink::new(config, 0);
    let mut t = 0u64;
    for i in 0..40u8 {
        while sink.enqueue(&[i, i]) == EnqueueStatus::MustWait {
            t += 7;
            sink.consume_one(t);
        }
    }
    sink.shutdown(t + 1);
    let mut all = Vec::new();
    for seg in sink.take_sealed() {
        all.extend(decode_frames(&seg.body).unwrap());
    }
    let expected: Vec<Vec<u8>> = (0..40u8).map(|i| vec![i, i]).collect();
    assert_eq!(all, expected);
}
