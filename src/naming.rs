//! Segment file names: `<stream>.<seq>.<created_ms>`, with the sequence
//! number and creation time in decimal. The shipper rebuilds its set of
//! pending segments from a directory listing by parsing these names, so the
//! set depends on what is on disk alone.

use vstd::prelude::*;
use vstd::arithmetic::div_mod::lemma_fundamental_div_mod;
use crate::bytes::append_bytes;

verus! {

/// The separator between the parts of a segment name.
pub const DOT: u8 = 46;

/// The byte of the digit zero.
pub const ZERO: u8 = 48;

/// The decimal digits of a number, most significant first, without leading
/// zeros.
pub open spec fn decimal(n: nat) -> Seq<u8>
    decreases n,
{
    if n < 10 {
        seq![(ZERO + n) as u8]
    } else {
        decimal(n / 10).push((ZERO + n % 10) as u8)
    }
}

/// Whether a byte is a decimal digit.
pub open spec fn is_digit(b: u8) -> bool {
    ZERO <= b <= ZERO + 9
}

/// The value of a string of decimal digits.
pub open spec fn digits_value(d: Seq<u8>) -> nat
    decreases d.len(),
{
    if d.len() == 0 {
        0
    } else {
        digits_value(d.drop_last()) * 10 + (d.last() - ZERO) as nat
    }
}

/// A non-empty string of digits whose value fits in 64 bits.
pub open spec fn digits_ok(d: Seq<u8>) -> bool {
    &&& d.len() > 0
    &&& forall|i: int| 0 <= i < d.len() ==> is_digit(#[trigger] d[i])
    &&& digits_value(d) <= u64::MAX
}

/// The index of the first dot in `b`, or its length if there is none.
pub open spec fn first_dot(b: Seq<u8>) -> nat
    decreases b.len(),
{
    if b.len() == 0 {
        0
    } else if b[0] == DOT {
        0
    } else {
        1 + first_dot(b.drop_first())
    }
}

/// A segment's name, as plain values.
pub struct SegmentNameView {
    pub stream: Seq<u8>,
    pub seq: u64,
    pub created_ms: u64,
}

/// The name of one segment: its stream, sequence number and creation time.
pub struct SegmentName {
    pub stream: Vec<u8>,
    pub seq: u64,
    pub created_ms: u64,
}

impl View for SegmentName {
    type V = SegmentNameView;

    open spec fn view(&self) -> SegmentNameView {
        SegmentNameView { stream: self.stream@, seq: self.seq, created_ms: self.created_ms }
    }
}

/// A stream name is non-empty and holds no dot.
pub open spec fn stream_ok(stream: Seq<u8>) -> bool {
    stream.len() > 0 && forall|i: int| 0 <= i < stream.len() ==> #[trigger] stream[i] != DOT
}

/// The file name of a segment.
pub open spec fn name_bytes(n: SegmentNameView) -> Seq<u8> {
    n.stream + seq![DOT] + decimal(n.seq as nat) + seq![DOT] + decimal(n.created_ms as nat)
}

/// What a file name says of a segment: `None` unless it is a stream name,
/// a dot, a number, a dot and a number.
pub open spec fn parse_name(b: Seq<u8>) -> Option<SegmentNameView> {
    let i = first_dot(b) as int;
    if i == 0 || i >= b.len() {
        None
    } else {
        let rest = b.subrange(i + 1, b.len() as int);
        let j = first_dot(rest) as int;
        if j >= rest.len() {
            None
        } else {
            let s = rest.subrange(0, j);
            let c = rest.subrange(j + 1, rest.len() as int);
            if digits_ok(s) && digits_ok(c) {
                Some(
                    SegmentNameView {
                        stream: b.subrange(0, i),
                        seq: digits_value(s) as u64,
                        created_ms: digits_value(c) as u64,
                    },
                )
            } else {
                None
            }
        }
    }
}

/// The names a directory listing holds, in listing order, skipping entries
/// that are not segment names.
pub open spec fn discovered(listing: Seq<Seq<u8>>) -> Seq<SegmentNameView>
    decreases listing.len(),
{
    if listing.len() == 0 {
        Seq::empty()
    } else {
        match parse_name(listing.last()) {
            Some(n) => discovered(listing.drop_last()).push(n),
            None => discovered(listing.drop_last()),
        }
    }
}

/// Appends the decimal digits of `n` to `dst`.
fn push_decimal(dst: &mut Vec<u8>, n: u64)
    ensures
        final(dst)@ == old(dst)@ + decimal(n as nat),
    decreases n,
{
    if n >= 10 {
        push_decimal(dst, n / 10);
    }
    dst.push(ZERO + (n % 10) as u8);
    assert(dst@ =~= old(dst)@ + decimal(n as nat));
}

/// The file name of a segment.
pub fn segment_file_name(name: &SegmentName) -> (r: Vec<u8>)
    ensures
        r@ == name_bytes(name@),
{
    let mut out: Vec<u8> = Vec::new();
    append_bytes(&mut out, name.stream.as_slice());
    out.push(DOT);
    push_decimal(&mut out, name.seq);
    out.push(DOT);
    push_decimal(&mut out, name.created_ms);
    assert(out@ =~= name_bytes(name@));
    out
}

/// The index of the first dot in `b` at or after `from`, or `b`'s length.
fn find_dot(b: &[u8], from: usize) -> (r: usize)
    requires
        from <= b@.len(),
    ensures
        r == from + first_dot(b@.subrange(from as int, b@.len() as int)),
        r <= b@.len(),
{
    let mut i = from;
    while i < b.len() && b[i] != DOT
        invariant
            from <= i <= b@.len(),
            first_dot(b@.subrange(from as int, b@.len() as int)) == (i - from) + first_dot(
                b@.subrange(i as int, b@.len() as int),
            ),
        decreases b@.len() - i,
    {
        assert(b@.subrange(i as int, b@.len() as int).drop_first() =~= b@.subrange(
            i + 1,
            b@.len() as int,
        ));
        i = i + 1;
    }
    i
}

/// A digit string extended at the end is worth at least as much.
proof fn lemma_digits_value_grows(d: Seq<u8>, k: int)
    requires
        0 <= k <= d.len(),
    ensures
        digits_value(d.subrange(0, k)) <= digits_value(d),
    decreases d.len() - k,
{
    if k < d.len() {
        lemma_digits_value_grows(d, k + 1);
        assert(d.subrange(0, k + 1).drop_last() =~= d.subrange(0, k));
    } else {
        assert(d.subrange(0, k) =~= d);
    }
}

/// The value of the digits `b[from..to]`, if they are all digits, at least
/// one, and their value fits in 64 bits.
fn parse_digits(b: &[u8], from: usize, to: usize) -> (r: Option<u64>)
    requires
        from <= to <= b@.len(),
    ensures
        r.is_some() == digits_ok(b@.subrange(from as int, to as int)),
        r matches Some(v) ==> v == digits_value(b@.subrange(from as int, to as int)),
{
    let ghost d = b@.subrange(from as int, to as int);
    if from == to {
        return None;
    }
    let mut v: u64 = 0;
    let mut i = from;
    while i < to
        invariant
            from <= i <= to <= b@.len(),
            d == b@.subrange(from as int, to as int),
            forall|k: int| 0 <= k < i - from ==> is_digit(#[trigger] d[k]),
            v == digits_value(d.subrange(0, i - from)),
        decreases to - i,
    {
        let c = b[i];
        assert(c == d[i - from]);
        if c < ZERO || c > ZERO + 9 {
            return None;
        }
        let digit = (c - ZERO) as u64;
        assert(d.subrange(0, i - from + 1).drop_last() =~= d.subrange(0, i - from));
        if v > (u64::MAX - digit) / 10 {
            proof {
                assert(v * 10 + digit > u64::MAX) by (nonlinear_arith)
                    requires
                        v > (u64::MAX - digit) / 10,
                        digit <= 9,
                ;
                lemma_digits_value_grows(d, i - from + 1);
            }
            return None;
        }
        assert(v * 10 + digit <= u64::MAX) by (nonlinear_arith)
            requires
                v <= (u64::MAX - digit) / 10,
                digit <= 9,
        ;
        v = v * 10 + digit;
        i = i + 1;
    }
    assert(d.subrange(0, i - from) =~= d);
    Some(v)
}

/// Parses a segment file name.
pub fn parse_segment_name(b: &[u8]) -> (r: Option<SegmentName>)
    ensures
        r.is_some() == parse_name(b@).is_some(),
        r matches Some(n) ==> parse_name(b@) == Some(n@),
{
    let i = find_dot(b, 0);
    assert(b@.subrange(0, b@.len() as int) =~= b@);
    if i == 0 || i >= b.len() {
        return None;
    }
    let j = find_dot(b, i + 1);
    let ghost rest = b@.subrange(i + 1, b@.len() as int);
    if j >= b.len() {
        return None;
    }
    let ghost jj = (j - (i + 1)) as int;
    assert(rest.subrange(0, jj) =~= b@.subrange(i + 1, j as int));
    assert(rest.subrange(jj + 1, rest.len() as int) =~= b@.subrange(j + 1, b@.len() as int));
    let seq = match parse_digits(b, i + 1, j) {
        Some(v) => v,
        None => return None,
    };
    let created = match parse_digits(b, j + 1, b.len()) {
        Some(v) => v,
        None => return None,
    };
    let mut stream: Vec<u8> = Vec::new();
    append_bytes(&mut stream, &b[0..i]);
    assert(stream@ =~= b@.subrange(0, i as int));
    Some(SegmentName { stream, seq, created_ms: created })
}

/// The segment names in a directory listing, in listing order.
pub fn discover(listing: &Vec<Vec<u8>>) -> (r: Vec<SegmentName>)
    ensures
        r@.map_values(|n: SegmentName| n@) == discovered(listing@.map_values(|e: Vec<u8>| e@)),
{
    let ghost entries = listing@.map_values(|e: Vec<u8>| e@);
    let mut out: Vec<SegmentName> = Vec::new();
    let mut i: usize = 0;
    while i < listing.len()
        invariant
            i <= listing@.len(),
            entries == listing@.map_values(|e: Vec<u8>| e@),
            out@.map_values(|n: SegmentName| n@) == discovered(entries.subrange(0, i as int)),
        decreases listing@.len() - i,
    {
        let ghost prev = out@;
        assert(entries.subrange(0, i + 1).drop_last() =~= entries.subrange(0, i as int));
        assert(entries.subrange(0, i + 1).last() == listing@[i as int]@);
        match parse_segment_name(listing[i].as_slice()) {
            Some(n) => {
                out.push(n);
                assert(out@.map_values(|n: SegmentName| n@) =~= prev.map_values(
                    |n: SegmentName| n@,
                ).push(out@.last()@));
            },
            None => {},
        }
        i = i + 1;
    }
    assert(entries.subrange(0, i as int) =~= entries);
    out
}

/// Every digit of a decimal rendering is a digit.
proof fn lemma_decimal_digits(n: nat)
    ensures
        decimal(n).len() > 0,
        forall|i: int| 0 <= i < decimal(n).len() ==> is_digit(#[trigger] decimal(n)[i]),
        digits_value(decimal(n)) == n,
    decreases n,
{
    if n >= 10 {
        lemma_decimal_digits(n / 10);
        let d = decimal(n);
        assert(d.drop_last() =~= decimal(n / 10));
        lemma_fundamental_div_mod(n as int, 10);
        assert(d.last() == (ZERO + n % 10) as u8);
        assert((d.last() - ZERO) as nat == n % 10);
        assert(digits_value(d) == digits_value(decimal(n / 10)) * 10 + n % 10);
        assert forall|i: int| 0 <= i < d.len() implies is_digit(#[trigger] d[i]) by {
            if i < d.len() - 1 {
                assert(d[i] == decimal(n / 10)[i]);
            }
        }
    } else {
        let d = decimal(n);
        assert(d.drop_last() =~= Seq::<u8>::empty());
        assert(digits_value(d) == digits_value(d.drop_last()) * 10 + (d.last() - ZERO) as nat);
    }
}

/// The first dot of `s + t`, where `s` holds no dot and `t` starts with one,
/// is at the end of `s`.
proof fn lemma_first_dot_after(s: Seq<u8>, t: Seq<u8>)
    requires
        forall|i: int| 0 <= i < s.len() ==> #[trigger] s[i] != DOT,
        t.len() > 0,
        t[0] == DOT,
    ensures
        first_dot(s + t) == s.len(),
    decreases s.len(),
{
    if s.len() > 0 {
        assert((s + t).drop_first() =~= s.drop_first() + t);
        assert forall|i: int| 0 <= i < s.drop_first().len() implies #[trigger] s.drop_first()[i] != DOT by {
            assert(s.drop_first()[i] == s[i + 1]);
        }
        lemma_first_dot_after(s.drop_first(), t);
    } else {
        assert(s + t =~= t);
    }
}

/// A name written by `segment_file_name` parses back to the same name.
pub proof fn lemma_name_round_trip(n: SegmentNameView)
    requires
        stream_ok(n.stream),
    ensures
        parse_name(name_bytes(n)) == Some(n),
{
    let b = name_bytes(n);
    let ds = decimal(n.seq as nat);
    let dc = decimal(n.created_ms as nat);
    lemma_decimal_digits(n.seq as nat);
    lemma_decimal_digits(n.created_ms as nat);
    let t1 = seq![DOT] + ds + seq![DOT] + dc;
    assert(b =~= n.stream + t1);
    lemma_first_dot_after(n.stream, t1);
    let i = n.stream.len() as int;
    let rest = b.subrange(i + 1, b.len() as int);
    let t2 = seq![DOT] + dc;
    assert(rest =~= ds + t2);
    assert forall|k: int| 0 <= k < ds.len() implies #[trigger] ds[k] != DOT by {
        assert(is_digit(ds[k]));
    }
    lemma_first_dot_after(ds, t2);
    let j = ds.len() as int;
    assert(rest.subrange(0, j) =~= ds);
    assert(rest.subrange(j + 1, rest.len() as int) =~= dc);
    assert(b.subrange(0, i) =~= n.stream);
}

/// What a shipper finds on restart depends on the listing alone: two
/// processes that list the same directory contents find the same pending
/// segments, so a segment sealed before a crash is found again.
pub proof fn lemma_discovery_survives_restart(listing: Seq<Seq<u8>>, n: SegmentNameView, k: int)
    requires
        stream_ok(n.stream),
        0 <= k < listing.len(),
        listing[k] == name_bytes(n),
    ensures
        discovered(listing).contains(n),
    decreases listing.len(),
{
    lemma_name_round_trip(n);
    if k == listing.len() - 1 {
        assert(discovered(listing).last() == n);
    } else {
        assert(listing.drop_last()[k] == listing[k]);
        lemma_discovery_survives_restart(listing.drop_last(), n, k);
        let prev = discovered(listing.drop_last());
        let m = choose|m: int| 0 <= m < prev.len() && prev[m] == n;
        match parse_name(listing.last()) {
            Some(x) => {
                assert(discovered(listing)[m] == n);
            },
            None => {},
        }
    }
}

} // verus!
