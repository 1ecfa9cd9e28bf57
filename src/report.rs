//! Reports and the request path that turns a submitted report into an
//! identifier for the client and a record for a sink.

use vstd::prelude::*;
use crate::bytes::append_bytes;
use crate::event_id::{
    MAX_TIMESTAMP_MILLIS, EVENT_ID_LEN, event_id, generate_id, timestamp_text, utc_text_bytes,
};
use crate::gate::{GateError, Network, decoded_network, gate_outcome, signature_valid, verify_report};
use crate::segment::{be64, frame, push_be64};

verus! {

/// A LoRa witness report as submitted by a hotspot.
pub struct LoraWitnessReport {
    /// The binary public key of the witness.
    pub pub_key: Vec<u8>,
    pub data: Vec<u8>,
    /// Nanoseconds since the Unix epoch.
    pub timestamp: u64,
    pub ts_res: u32,
    pub signal: i32,
    pub snr: i32,
    pub frequency: u64,
    pub datarate: i32,
    pub signature: Vec<u8>,
}

/// A witness report with the time verification accepted it.
pub struct LoraWitnessIngestReport {
    /// Milliseconds since the Unix epoch.
    pub received_timestamp: u64,
    pub report: LoraWitnessReport,
}

impl LoraWitnessReport {
    /// The event identifier of this report received at `received_ts`
    /// (milliseconds since the Unix epoch).
    pub fn generate_id(&self, received_ts: u64) -> (r: Vec<u8>)
        requires
            received_ts <= MAX_TIMESTAMP_MILLIS,
        ensures
            r@ == event_id(self.data@, utc_text_bytes(received_ts as i64), self.pub_key@),
            r@.len() == EVENT_ID_LEN,
    {
        let ts = timestamp_text(received_ts);
        generate_id(self.data.as_slice(), ts.as_slice(), self.pub_key.as_slice())
    }
}

impl LoraWitnessIngestReport {
    /// The event identifier of this report.
    pub fn generate_id(&self) -> (r: Vec<u8>)
        requires
            self.received_timestamp <= MAX_TIMESTAMP_MILLIS,
        ensures
            r@ == event_id(
                self.report.data@,
                utc_text_bytes(self.received_timestamp as i64),
                self.report.pub_key@,
            ),
            r@.len() == EVENT_ID_LEN,
    {
        self.report.generate_id(self.received_timestamp)
    }
}

/// A report of any kind: the signer's key, the signature, and the bytes the
/// signature covers, which are also the bytes persisted.
pub struct SignedReport {
    pub public_key: Vec<u8>,
    pub signature: Vec<u8>,
    pub payload: Vec<u8>,
}

/// How a stream checks its reports: the network the server serves, and
/// whether a key's network must match it.
#[derive(Clone, Copy, Debug, PartialEq, Eq, Structural)]
pub struct StreamPolicy {
    pub required_network: Network,
    pub enforce_network: bool,
}

/// What an accepted report yields: the identifier returned to the client and
/// the records handed to the stream's sinks: the ingest record (receive time
/// and report) and the raw request as submitted.
pub struct Accepted {
    pub event_id: Vec<u8>,
    pub record: Vec<u8>,
    pub request: Vec<u8>,
}

/// The stored form of a raw request: the framed key, the framed signature,
/// then the payload.
pub open spec fn request_record(key: Seq<u8>, sig: Seq<u8>, payload: Seq<u8>) -> Seq<u8> {
    frame(key) + frame(sig) + payload
}

/// Encodes a submitted report, as received, for storage.
pub fn encode_request_record(report: &SignedReport) -> (r: Vec<u8>)
    ensures
        r@ == request_record(report.public_key@, report.signature@, report.payload@),
{
    let mut out: Vec<u8> = Vec::new();
    push_be64(&mut out, report.public_key.len() as u64);
    append_bytes(&mut out, report.public_key.as_slice());
    push_be64(&mut out, report.signature.len() as u64);
    append_bytes(&mut out, report.signature.as_slice());
    append_bytes(&mut out, report.payload.as_slice());
    assert(out@ =~= request_record(report.public_key@, report.signature@, report.payload@));
    out
}

/// The stored form of an accepted report: the receive time as eight
/// big-endian bytes, the framed key, the framed signature, then the payload.
pub open spec fn ingest_record(
    received_timestamp: u64,
    key: Seq<u8>,
    sig: Seq<u8>,
    payload: Seq<u8>,
) -> Seq<u8> {
    be64(received_timestamp) + frame(key) + frame(sig) + payload
}

/// The verification outcome on a report under a stream's policy.
pub open spec fn report_outcome(policy: StreamPolicy, report: SignedReport) -> Result<(), GateError> {
    gate_outcome(
        decoded_network(report.public_key@),
        policy.required_network,
        policy.enforce_network,
        signature_valid(report.public_key@, report.payload@, report.signature@),
    )
}

/// Encodes an accepted report for storage.
pub fn encode_ingest_record(received_timestamp: u64, report: &SignedReport) -> (r: Vec<u8>)
    ensures
        r@ == ingest_record(
            received_timestamp,
            report.public_key@,
            report.signature@,
            report.payload@,
        ),
{
    let mut out: Vec<u8> = Vec::new();
    push_be64(&mut out, received_timestamp);
    push_be64(&mut out, report.public_key.len() as u64);
    append_bytes(&mut out, report.public_key.as_slice());
    push_be64(&mut out, report.signature.len() as u64);
    append_bytes(&mut out, report.signature.as_slice());
    append_bytes(&mut out, report.payload.as_slice());
    assert(out@ =~= ingest_record(
        received_timestamp,
        report.public_key@,
        report.signature@,
        report.payload@,
    ));
    out
}

/// Handles one submitted report received at `received_timestamp`: on a verification
/// failure returns its error and yields nothing to store; otherwise returns
/// the event identifier and the records to enqueue.
pub fn accept_report(policy: StreamPolicy, report: &SignedReport, received_timestamp: u64) -> (r:
    Result<Accepted, GateError>)
    requires
        received_timestamp <= MAX_TIMESTAMP_MILLIS,
    ensures
        r.is_ok() == report_outcome(policy, *report).is_ok(),
        r matches Err(e) ==> report_outcome(policy, *report) == Err::<(), GateError>(e),
        r matches Ok(a) ==> {
            &&& a.event_id@ == event_id(
                report.payload@,
                utc_text_bytes(received_timestamp as i64),
                report.public_key@,
            )
            &&& a.event_id@.len() == EVENT_ID_LEN
            &&& a.record@ == ingest_record(
                received_timestamp,
                report.public_key@,
                report.signature@,
                report.payload@,
            )
            &&& a.request@ == request_record(
                report.public_key@,
                report.signature@,
                report.payload@,
            )
        },
{
    match verify_report(
        report.public_key.as_slice(),
        report.payload.as_slice(),
        report.signature.as_slice(),
        policy.required_network,
        policy.enforce_network,
    ) {
        Err(e) => Err(e),
        Ok(()) => {
            let ts = timestamp_text(received_timestamp);
            let id = generate_id(report.payload.as_slice(), ts.as_slice(), report.public_key.as_slice());
            let record = encode_ingest_record(received_timestamp, report);
            let request = encode_request_record(report);
            Ok(Accepted { event_id: id, record, request })
        },
    }
}

} // verus!
