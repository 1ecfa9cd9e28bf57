//! Event identity: a SHA-256 digest over a report's payload, the rendering of
//! its receive time and the submitter's public key.

use sha2::Digest;
use vstd::prelude::*;
use crate::bytes::append_bytes;

verus! {

/// The largest receive time, in milliseconds since the Unix epoch, that a
/// report may carry: the last millisecond of the year 9999.
pub const MAX_TIMESTAMP_MILLIS: u64 = 253402300799999;

/// The length of an event identifier in bytes.
pub const EVENT_ID_LEN: usize = 32;

/// The SHA-256 digest of a byte string.
pub uninterp spec fn sha256_of(bytes: Seq<u8>) -> Seq<u8>;

/// The UTF-8 bytes of the UTC date-time rendering (`2000-01-12 01:02:03.004 UTC`)
/// of a millisecond Unix timestamp.
pub uninterp spec fn utc_text_bytes(millis: i64) -> Seq<u8>;

/// Relies on `sha2::Sha256::digest`: the SHA-256 digest of the input, whose
/// output size is 32 bytes.
#[verifier::external_body]
pub(crate) fn sha256_digest(bytes: &[u8]) -> (r: Vec<u8>)
    ensures
        r@ == sha256_of(bytes@),
        r@.len() == EVENT_ID_LEN,
{
    sha2::Sha256::digest(bytes).to_vec()
}

/// Relies on `chrono::DateTime::from_timestamp_millis`, which returns `None`
/// only outside chrono's range of years (up to 262142), and on the `Display`
/// rendering of `DateTime<Utc>`.
#[verifier::external_body]
fn render_utc_millis(millis: i64) -> (r: Option<Vec<u8>>)
    ensures
        r matches Some(b) ==> b@ == utc_text_bytes(millis),
        0 <= millis <= MAX_TIMESTAMP_MILLIS ==> r.is_some(),
{
    match chrono::DateTime::from_timestamp_millis(millis) {
        Some(d) => Some(d.to_string().into_bytes()),
        None => None,
    }
}

/// The bytes that an event identifier digests.
pub open spec fn id_preimage(payload: Seq<u8>, timestamp_text: Seq<u8>, public_key: Seq<u8>) -> Seq<u8> {
    payload + timestamp_text + public_key
}

/// The event identifier of a report occurrence.
pub open spec fn event_id(payload: Seq<u8>, timestamp_text: Seq<u8>, public_key: Seq<u8>) -> Seq<u8> {
    sha256_of(id_preimage(payload, timestamp_text, public_key))
}

/// The concatenation that an event identifier digests.
pub fn id_message(payload: &[u8], timestamp_text: &[u8], public_key: &[u8]) -> (r: Vec<u8>)
    ensures
        r@ == id_preimage(payload@, timestamp_text@, public_key@),
{
    let mut id: Vec<u8> = Vec::new();
    append_bytes(&mut id, payload);
    append_bytes(&mut id, timestamp_text);
    append_bytes(&mut id, public_key);
    assert(id@ =~= payload@ + timestamp_text@ + public_key@);
    id
}

/// Derives the identifier of a report occurrence from its payload bytes, the
/// rendering of its receive time and the raw public key bytes.
pub fn generate_id(payload: &[u8], timestamp_text: &[u8], public_key: &[u8]) -> (r: Vec<u8>)
    ensures
        r@ == event_id(payload@, timestamp_text@, public_key@),
        r@.len() == EVENT_ID_LEN,
{
    let id = id_message(payload, timestamp_text, public_key);
    sha256_digest(id.as_slice())
}

/// The rendering of a receive time that event identifiers digest.
pub fn timestamp_text(millis: u64) -> (r: Vec<u8>)
    requires
        millis <= MAX_TIMESTAMP_MILLIS,
    ensures
        r@ == utc_text_bytes(millis as i64),
{
    match render_utc_millis(millis as i64) {
        Some(b) => b,
        None => Vec::new(),
    }
}

/// Event identifiers are a function of their inputs: equal inputs give equal
/// identifiers.
pub proof fn lemma_event_id_deterministic(
    pa: Seq<u8>, ta: Seq<u8>, ka: Seq<u8>,
    pb: Seq<u8>, tb: Seq<u8>, kb: Seq<u8>,
)
    requires
        pa == pb,
        ta == tb,
        ka == kb,
    ensures
        event_id(pa, ta, ka) == event_id(pb, tb, kb),
{
}

/// Two input triples whose parts have equal lengths but differ in some byte
/// give different digested messages, so their identifiers differ unless
/// SHA-256 collides.
pub proof fn lemma_id_preimage_distinguishes(
    pa: Seq<u8>, ta: Seq<u8>, ka: Seq<u8>,
    pb: Seq<u8>, tb: Seq<u8>, kb: Seq<u8>,
)
    requires
        pa.len() == pb.len(),
        ta.len() == tb.len(),
        ka.len() == kb.len(),
        pa != pb || ta != tb || ka != kb,
    ensures
        id_preimage(pa, ta, ka) != id_preimage(pb, tb, kb),
{
    let ma = id_preimage(pa, ta, ka);
    let mb = id_preimage(pb, tb, kb);
    if ma == mb {
        let a = pa.len() as int;
        let b = a + ta.len();
        assert(ma.subrange(0, a) =~= pa);
        assert(mb.subrange(0, a) =~= pb);
        assert(ma.subrange(a, b) =~= ta);
        assert(mb.subrange(a, b) =~= tb);
        assert(ma.subrange(b, ma.len() as int) =~= ka);
        assert(mb.subrange(b, mb.len() as int) =~= kb);
    }
}

} // verus!
