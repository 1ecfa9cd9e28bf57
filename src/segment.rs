//! Segments: append-only sequences of length-prefixed records. A segment is
//! open while the sink appends to it and sealed, immutable, once rotated out.

use vstd::prelude::*;
use crate::bytes::append_bytes;
use crate::event_id::{sha256_digest, sha256_of};

verus! {

/// The big-endian encoding of a 64-bit length.
pub open spec fn be64(n: u64) -> Seq<u8> {
    seq![
        (n >> 56u64) as u8,
        (n >> 48u64) as u8,
        (n >> 40u64) as u8,
        (n >> 32u64) as u8,
        (n >> 24u64) as u8,
        (n >> 16u64) as u8,
        (n >> 8u64) as u8,
        n as u8,
    ]
}

/// One record in a segment body: its length as eight big-endian bytes, then
/// the record itself.
pub open spec fn frame(record: Seq<u8>) -> Seq<u8> {
    be64(record.len() as u64) + record
}

/// The body of a segment holding `records`, in order.
pub open spec fn frames(records: Seq<Seq<u8>>) -> Seq<u8>
    decreases records.len(),
{
    if records.len() == 0 {
        Seq::empty()
    } else {
        frames(records.drop_last()) + frame(records.last())
    }
}

/// Every record's length fits in the 64-bit length prefix.
pub open spec fn lengths_fit(records: Seq<Seq<u8>>) -> bool {
    forall|i: int| 0 <= i < records.len() ==> (#[trigger] records[i]).len() <= u64::MAX
}

/// The byte strings held by a vector of records.
pub open spec fn record_views(v: Seq<Vec<u8>>) -> Seq<Seq<u8>> {
    v.map_values(|r: Vec<u8>| r@)
}

/// The number whose big-endian encoding is the first eight bytes of `b`.
pub open spec fn be64_value(b: Seq<u8>) -> u64 {
    ((b[0] as u64) << 56u64) | ((b[1] as u64) << 48u64) | ((b[2] as u64) << 40u64) | ((
    b[3] as u64) << 32u64) | ((b[4] as u64) << 24u64) | ((b[5] as u64) << 16u64) | ((
    b[6] as u64) << 8u64) | (b[7] as u64)
}

/// The records of a segment body, read from the front; `None` if the body
/// is not a whole number of frames.
pub open spec fn parse_frames(body: Seq<u8>) -> Option<Seq<Seq<u8>>>
    decreases body.len(),
{
    if body.len() == 0 {
        Some(Seq::empty())
    } else if body.len() < 8 {
        None
    } else {
        let n = be64_value(body) as int;
        if n > body.len() - 8 {
            None
        } else {
            match parse_frames(body.subrange(8 + n, body.len() as int)) {
                Some(rest) => Some(seq![body.subrange(8, 8 + n)] + rest),
                None => None,
            }
        }
    }
}

/// Reading a length back from its encoding gives the length.
pub proof fn lemma_be64_round_trip(n: u64)
    ensures
        be64_value(be64(n)) == n,
{
    let b = be64(n);
    let b0 = b[0];
    let b1 = b[1];
    let b2 = b[2];
    let b3 = b[3];
    let b4 = b[4];
    let b5 = b[5];
    let b6 = b[6];
    let b7 = b[7];
    assert(((((n >> 56u64) as u8) as u64) << 56u64) | ((((n >> 48u64) as u8) as u64) << 48u64)
        | ((((n >> 40u64) as u8) as u64) << 40u64) | ((((n >> 32u64) as u8) as u64) << 32u64)
        | ((((n >> 24u64) as u8) as u64) << 24u64) | ((((n >> 16u64) as u8) as u64) << 16u64)
        | ((((n >> 8u64) as u8) as u64) << 8u64) | ((n as u8) as u64) == n) by (bit_vector);
}

/// Framing a record in front of others puts its frame first.
proof fn lemma_frames_prepend(r: Seq<u8>, rest: Seq<Seq<u8>>)
    ensures
        frames(seq![r] + rest) == frame(r) + frames(rest),
    decreases rest.len(),
{
    if rest.len() == 0 {
        assert(seq![r] + rest =~= seq![r]);
        assert(seq![r].drop_last() =~= Seq::<Seq<u8>>::empty());
        assert(frame(r) + frames(rest) =~= frame(r));
        assert(seq![r].last() == r);
        assert(frames(Seq::<Seq<u8>>::empty()) == Seq::<u8>::empty());
        assert(frames(seq![r]) == frames(seq![r].drop_last()) + frame(seq![r].last()));
        assert(frames(seq![r]) =~= Seq::<u8>::empty() + frame(r));
    } else {
        lemma_frames_prepend(r, rest.drop_last());
        assert((seq![r] + rest).drop_last() =~= seq![r] + rest.drop_last());
        assert((seq![r] + rest).last() == rest.last());
        assert(frame(r) + frames(rest) =~= frame(r) + frames(rest.drop_last()) + frame(rest.last()));
    }
}

/// A body written frame by frame reads back as the same records.
pub proof fn lemma_frames_round_trip(records: Seq<Seq<u8>>)
    requires
        lengths_fit(records),
    ensures
        parse_frames(frames(records)) == Some(records),
    decreases records.len(),
{
    if records.len() == 0 {
        assert(frames(records) =~= Seq::<u8>::empty());
        assert(records =~= Seq::<Seq<u8>>::empty());
    } else {
        let r = records[0];
        let rest = records.drop_first();
        assert(records =~= seq![r] + rest);
        lemma_frames_prepend(r, rest);
        assert forall|i: int| 0 <= i < rest.len() implies (#[trigger] rest[i]).len() <= u64::MAX by {
            assert(rest[i] == records[i + 1]);
        }
        lemma_frames_round_trip(rest);
        let body = frames(records);
        lemma_be64_round_trip(r.len() as u64);
        assert(body.subrange(0, 8) =~= be64(r.len() as u64));
        assert(be64_value(body) == be64_value(be64(r.len() as u64)));
        let n = r.len() as int;
        assert(body.subrange(8, 8 + n) =~= r);
        assert(body.subrange(8 + n, body.len() as int) =~= frames(rest));
    }
}

/// Appends the big-endian encoding of `n` to `dst`.
pub(crate) fn push_be64(dst: &mut Vec<u8>, n: u64)
    ensures
        final(dst)@ == old(dst)@ + be64(n),
{
    dst.push((n >> 56u64) as u8);
    dst.push((n >> 48u64) as u8);
    dst.push((n >> 40u64) as u8);
    dst.push((n >> 32u64) as u8);
    dst.push((n >> 24u64) as u8);
    dst.push((n >> 16u64) as u8);
    dst.push((n >> 8u64) as u8);
    dst.push(n as u8);
    assert(dst@ =~= old(dst)@ + be64(n));
}

/// The segment a sink is currently appending to.
pub struct OpenSegment {
    pub seq: u64,
    pub created_ms: u64,
    pub body: Vec<u8>,
    pub record_count: usize,
    pub records: Ghost<Seq<Seq<u8>>>,
}

/// A segment closed to further writes, with its manifest: sequence number,
/// creation and sealing times, record count and body.
pub struct SealedSegment {
    pub seq: u64,
    pub created_ms: u64,
    pub sealed_ms: u64,
    pub record_count: usize,
    pub body: Vec<u8>,
    pub records: Ghost<Seq<Seq<u8>>>,
}

impl OpenSegment {
    /// The body is the framing of the records, and the count is theirs.
    pub open spec fn wf(&self) -> bool {
        &&& self.body@ == frames(self.records@)
        &&& self.record_count == self.records@.len()
        &&& self.record_count <= self.body@.len()
        &&& lengths_fit(self.records@)
    }

    /// A fresh, empty segment.
    pub fn new(seq: u64, created_ms: u64) -> (r: OpenSegment)
        ensures
            r.wf(),
            r.seq == seq,
            r.created_ms == created_ms,
            r.records@ == Seq::<Seq<u8>>::empty(),
    {
        OpenSegment {
            seq,
            created_ms,
            body: Vec::new(),
            record_count: 0,
            records: Ghost(Seq::empty()),
        }
    }

    /// The size of the body in bytes.
    pub fn size(&self) -> (r: usize)
        ensures
            r == self.body@.len(),
    {
        self.body.len()
    }

    /// Appends one record at the end of the segment.
    pub fn append(&mut self, record: &[u8])
        requires
            old(self).wf(),
        ensures
            final(self).wf(),
            final(self).records@ == old(self).records@.push(record@),
            final(self).seq == old(self).seq,
            final(self).created_ms == old(self).created_ms,
    {
        let ghost before = self.records@;
        let len = record.len();
        assert(len as int == record@.len());
        push_be64(&mut self.body, record.len() as u64);
        append_bytes(&mut self.body, record);
        let ghost after = before.push(record@);
        proof {
            assert(after.drop_last() =~= before);
            assert(self.body@ =~= frames(before) + frame(record@));
        }
        assert forall|i: int| 0 <= i < after.len() implies (#[trigger] after[i]).len() <= u64::MAX by {
            if i < before.len() {
                assert(after[i] == before[i]);
            }
        }
        self.records = Ghost(after);
        let size = self.body.len();
        assert(size >= self.record_count + 8);
        self.record_count = self.record_count + 1;
    }

    /// Closes the segment at time `sealed_ms`.
    pub fn seal(self, sealed_ms: u64) -> (r: SealedSegment)
        requires
            self.wf(),
        ensures
            r.wf(),
            r.seq == self.seq,
            r.created_ms == self.created_ms,
            r.sealed_ms == sealed_ms,
            r.records@ == self.records@,
    {
        SealedSegment {
            seq: self.seq,
            created_ms: self.created_ms,
            sealed_ms,
            record_count: self.record_count,
            body: self.body,
            records: self.records,
        }
    }
}

/// Reads the records of a segment body back; `None` if the body is not a
/// whole number of frames.
pub fn decode_frames(body: &[u8]) -> (r: Option<Vec<Vec<u8>>>)
    ensures
        r is Some == parse_frames(body@) is Some,
        r matches Some(v) ==> parse_frames(body@) == Some(record_views(v@)),
{
    let mut out: Vec<Vec<u8>> = Vec::new();
    let mut pos: usize = 0;
    proof {
        assert(body@.subrange(0, body@.len() as int) =~= body@);
        assert(record_views(out@) =~= Seq::<Seq<u8>>::empty());
        if parse_frames(body@) is Some {
            let rest = parse_frames(body@).unwrap();
            assert(record_views(out@) + rest =~= rest);
        }
    }
    while pos < body.len()
        invariant
            pos <= body@.len(),
            parse_frames(body@) == match parse_frames(body@.subrange(pos as int, body@.len() as int)) {
                Some(rest) => Some(record_views(out@) + rest),
                None => None::<Seq<Seq<u8>>>,
            },
        decreases body@.len() - pos,
    {
        let ghost tail = body@.subrange(pos as int, body@.len() as int);
        if body.len() - pos < 8 {
            return None;
        }
        let n = ((body[pos] as u64) << 56u64) | ((body[pos + 1] as u64) << 48u64) | ((body[pos
            + 2] as u64) << 40u64) | ((body[pos + 3] as u64) << 32u64) | ((body[pos + 4] as u64)
            << 24u64) | ((body[pos + 5] as u64) << 16u64) | ((body[pos + 6] as u64) << 8u64) | (
        body[pos + 7] as u64);
        assert(n == be64_value(tail));
        if n > (body.len() - pos - 8) as u64 {
            return None;
        }
        let start = pos + 8;
        let end = start + n as usize;
        let mut record: Vec<u8> = Vec::new();
        append_bytes(&mut record, &body[start..end]);
        let ghost prev = out@;
        out.push(record);
        proof {
            assert(tail.subrange(8 + n as int, tail.len() as int) =~= body@.subrange(
                end as int,
                body@.len() as int,
            ));
            assert(tail.subrange(8, 8 + n as int) =~= body@.subrange(start as int, end as int));
            assert(record_views(out@) =~= record_views(prev).push(body@.subrange(start as int, end as int)));
            match parse_frames(body@.subrange(end as int, body@.len() as int)) {
                Some(rest) => {
                    assert(record_views(prev) + (seq![body@.subrange(start as int, end as int)]
                        + rest) =~= record_views(out@) + rest);
                },
                None => {},
            }
        }
        pos = end;
    }
    assert(body@.subrange(pos as int, body@.len() as int) =~= Seq::<u8>::empty());
    assert(record_views(out@) + Seq::<Seq<u8>>::empty() =~= record_views(out@));
    Some(out)
}

/// A sealed segment's body reads back as exactly its records.
pub proof fn lemma_sealed_segment_decodes(seg: SealedSegment)
    requires
        seg.wf(),
    ensures
        parse_frames(seg.body@) == Some(seg.records@),
{
    lemma_frames_round_trip(seg.records@);
}

/// What the shipper is told of a sealed segment.
pub struct Manifest {
    pub seq: u64,
    pub created_ms: u64,
    pub sealed_ms: u64,
    pub record_count: usize,
    pub size: usize,
    /// The SHA-256 digest of the body.
    pub checksum: Vec<u8>,
}

impl SealedSegment {
    /// The segment's manifest: its attributes, its size and the digest of
    /// its body.
    pub fn manifest(&self) -> (r: Manifest)
        ensures
            r.seq == self.seq,
            r.created_ms == self.created_ms,
            r.sealed_ms == self.sealed_ms,
            r.record_count == self.record_count,
            r.size == self.body@.len(),
            r.checksum@ == sha256_of(self.body@),
    {
        Manifest {
            seq: self.seq,
            created_ms: self.created_ms,
            sealed_ms: self.sealed_ms,
            record_count: self.record_count,
            size: self.body.len(),
            checksum: sha256_digest(self.body.as_slice()),
        }
    }

    /// The body is the framing of the records, and the count is theirs.
    pub open spec fn wf(&self) -> bool {
        &&& self.body@ == frames(self.records@)
        &&& self.record_count == self.records@.len()
        &&& lengths_fit(self.records@)
    }

    /// The size of the body in bytes.
    pub fn size(&self) -> (r: usize)
        ensures
            r == self.body@.len(),
    {
        self.body.len()
    }
}

} // verus!
