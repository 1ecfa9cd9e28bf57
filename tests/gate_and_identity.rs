use helium_crypto::{KeyTag, KeyType, Keypair, Sign};
use ingest::event_id::{generate_id, id_message, timestamp_text};
use ingest::gate::{gate_verdict, screen_key, verify_report, GateError, Network};
use ingest::report::{accept_report, encode_ingest_record, encode_request_record, LoraWitnessIngestReport, LoraWitnessReport, SignedReport, StreamPolicy};

fn keypair(network: helium_crypto::Network) -> Keypair {
    Keypair::generate_from_entropy(
        KeyTag { network, key_type: KeyType::Ed25519 },
        &[7u8; 32],
    )
    .unwrap()
}

fn signed(network: helium_crypto::Network, payload: &[u8]) -> SignedReport {
    let kp = keypair(network);
    SignedReport {
        public_key: kp.public_key().to_vec(),
        signature: kp.sign(payload).unwrap(),
        payload: payload.to_vec(),
    }
}

fn hex(b: &[u8]) -> String {
    b.iter().map(|x| format!("{:02x}", x)).collect()
}

#[test]
fn gate_accepts_valid_report() {
    let r = signed(helium_crypto::Network::MainNet, b"beacon payload");
    let out = verify_report(&r.public_key, &r.payload, &r.signature, Network::MainNet, true);
    assert_eq!(out, Ok(()));
}

#[test]
fn gate_rejects_undecodable_key() {
    let r = signed(helium_crypto::Network::MainNet, b"beacon payload");
    assert_eq!(
        verify_report(&[], &r.payload, &r.signature, Network::MainNet, true),
        Err(GateError::InvalidPublicKey)
    );
    let mut bad = r.public_key.clone();
    bad[0] = 0x21;
    assert_eq!(
        verify_report(&bad, &r.payload, &r.signature, Network::MainNet, true),
        Err(GateError::InvalidPublicKey)
    );
}

#[test]
fn gate_rejects_wrong_network() {
    let r = signed(helium_crypto::Network::TestNet, b"beacon payload");
    assert_eq!(
        verify_report(&r.public_key, &r.payload, &r.signature, Network::MainNet, true),
        Err(GateError::InvalidNetwork)
    );
    // a bad signature is not looked at once the network check has failed
    assert_eq!(
        verify_report(&r.public_key, &r.payload, &[0u8; 64], Network::MainNet, true),
        Err(GateError::InvalidNetwork)
    );
}

#[test]
fn gate_network_check_can_be_off() {
    let r = signed(helium_crypto::Network::TestNet, b"beacon payload");
    assert_eq!(
        verify_report(&r.public_key, &r.payload, &r.signature, Network::MainNet, false),
        Ok(())
    );
}

#[test]
fn gate_rejects_bad_signature() {
    let r = signed(helium_crypto::Network::MainNet, b"beacon payload");
    assert_eq!(
        verify_report(&r.public_key, b"other payload", &r.signature, Network::MainNet, true),
        Err(GateError::InvalidSignature)
    );
}

#[test]
fn gate_verdict_reports_first_failure() {
    assert_eq!(gate_verdict(None, Network::MainNet, true, true), Err(GateError::InvalidPublicKey));
    assert_eq!(gate_verdict(None, Network::MainNet, true, false), Err(GateError::InvalidPublicKey));
    assert_eq!(
        gate_verdict(Some(Network::TestNet), Network::MainNet, true, false),
        Err(GateError::InvalidNetwork)
    );
    assert_eq!(
        gate_verdict(Some(Network::MainNet), Network::MainNet, true, false),
        Err(GateError::InvalidSignature)
    );
    assert_eq!(gate_verdict(Some(Network::MainNet), Network::MainNet, true, true), Ok(()));
    assert_eq!(gate_verdict(Some(Network::TestNet), Network::MainNet, false, true), Ok(()));
}

#[test]
fn gate_error_messages() {
    assert_eq!(GateError::InvalidPublicKey.message(), "invalid public key");
    assert_eq!(GateError::InvalidNetwork.message(), "invalid network");
    assert_eq!(GateError::InvalidSignature.message(), "invalid signature");
}

#[test]
fn event_id_is_sha256_of_concatenation() {
    let id = generate_id(b"a", b"b", b"c");
    assert_eq!(hex(&id), "ba7816bf8f01cfea414140de5dae2223b00361a396177a9cb410ff61f20015ad");
    assert_eq!(id_message(b"ab", b"cd", b"e"), b"abcde".to_vec());
}

#[test]
fn event_id_deterministic_and_sensitive() {
    let a = generate_id(b"payload", b"2000-01-12 01:02:03.004 UTC", b"key");
    let b = generate_id(b"payload", b"2000-01-12 01:02:03.004 UTC", b"key");
    assert_eq!(a, b);
    assert_eq!(a.len(), 32);
    assert_ne!(a, generate_id(b"paylobd", b"2000-01-12 01:02:03.004 UTC", b"key"));
    assert_ne!(a, generate_id(b"payload", b"2000-01-12 01:02:03.005 UTC", b"key"));
    assert_ne!(a, generate_id(b"payload", b"2000-01-12 01:02:03.004 UTC", b"kez"));
}

#[test]
fn timestamp_rendering() {
    assert_eq!(timestamp_text(947638923004), b"2000-01-12 01:02:03.004 UTC".to_vec());
    assert_eq!(timestamp_text(0), b"1970-01-01 00:00:00 UTC".to_vec());
}

#[test]
fn witness_report_ids() {
    let report = LoraWitnessReport {
        pub_key: vec![1, 2, 3],
        data: vec![9, 9],
        timestamp: 5,
        ts_res: 0,
        signal: -80,
        snr: 3,
        frequency: 904_100_000,
        datarate: 0,
        signature: vec![],
    };
    let expected = generate_id(&[9, 9], b"2000-01-12 01:02:03.004 UTC", &[1, 2, 3]);
    assert_eq!(report.generate_id(947638923004), expected);
    let ingest = LoraWitnessIngestReport { received_timestamp: 947638923004, report };
    assert_eq!(ingest.generate_id(), expected);
}

#[test]
fn ingest_record_layout() {
    let r = SignedReport { public_key: vec![0xaa], signature: vec![0xbb, 0xcc], payload: vec![1, 2] };
    let bytes = encode_ingest_record(258, &r);
    assert_eq!(
        bytes,
        vec![0, 0, 0, 0, 0, 0, 1, 2, 0, 0, 0, 0, 0, 0, 0, 1, 0xaa, 0, 0, 0, 0, 0, 0, 0, 2, 0xbb, 0xcc, 1, 2]
    );
}

#[test]
fn accept_report_valid_and_invalid() {
    let policy = StreamPolicy { required_network: Network::MainNet, enforce_network: true };
    let r = signed(helium_crypto::Network::MainNet, b"witness");
    let a = accept_report(policy, &r, 947638923004).unwrap();
    assert_eq!(a.event_id, generate_id(b"witness", b"2000-01-12 01:02:03.004 UTC", &r.public_key));
    assert_eq!(a.record, encode_ingest_record(947638923004, &r));
    let t = signed(helium_crypto::Network::TestNet, b"witness");
    assert!(matches!(accept_report(policy, &t, 1), Err(GateError::InvalidNetwork)));
}

#[test]
fn keys_that_would_crash_the_decoder_are_invalid() {
    // secp256k1 tag with the identity point
    assert!(!screen_key(&[0x03, 0x00]));
    assert_eq!(verify_report(&[0x03, 0x00], b"m", b"s", Network::MainNet, true), Err(GateError::InvalidPublicKey));
    // secp256k1 tag with an x that has no point on the curve
    let mut off_curve = vec![0x03, 0x02];
    off_curve.extend_from_slice(&[0xffu8; 32]);
    assert_eq!(verify_report(&off_curve, b"m", b"s", Network::MainNet, true), Err(GateError::InvalidPublicKey));
    // rsa tag with a modulus longer than the declared total
    assert!(!screen_key(&[0x04, 0, 0, 0, 1]));
    assert_eq!(verify_report(&[0x04, 0, 0, 0, 1], b"m", b"s", Network::MainNet, true), Err(GateError::InvalidPublicKey));
    // unknown network nibble
    assert!(!screen_key(&[0x21, 1, 2]));
    assert!(!screen_key(&[]));
}

#[test]
fn screen_passes_ordinary_keys() {
    let r = signed(helium_crypto::Network::MainNet, b"x");
    assert!(screen_key(&r.public_key));
    // a truncated rsa body is refused by the decoder itself, not the screen
    assert!(screen_key(&[0x04, 0, 9, 0, 1]));
    assert_eq!(verify_report(&[0x04, 0, 9, 0, 1], b"m", b"s", Network::MainNet, true), Err(GateError::InvalidPublicKey));
}

#[test]
fn request_record_layout() {
    let r = SignedReport { public_key: vec![0xaa], signature: vec![0xbb], payload: vec![7] };
    assert_eq!(encode_request_record(&r), vec![0, 0, 0, 0, 0, 0, 0, 1, 0xaa, 0, 0, 0, 0, 0, 0, 0, 1, 0xbb, 7]);
    let policy = StreamPolicy { required_network: Network::MainNet, enforce_network: false };
    let s = signed(helium_crypto::Network::TestNet, b"speedtest");
    let a = accept_report(policy, &s, 5).unwrap();
    assert_eq!(a.request, encode_request_record(&s));
}
