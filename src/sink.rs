//! The durable file sink: a bounded queue of records in front of a single
//! consumer that appends them, in arrival order, to a rotating open segment.
//! The sink never loses a record it accepted: every accepted record is, in
//! order, in a segment handed out, in a sealed segment, in the open segment
//! or still queued.

use vstd::prelude::*;
use crate::bytes::append_bytes;
use crate::segment::{OpenSegment, SealedSegment, record_views};

verus! {

/// The default rotation window: five minutes.
pub const DEFAULT_ROLL_WINDOW_MS: u64 = 300000;

/// The default channel capacity of a sink.
pub const DEFAULT_CAPACITY: usize = 50;

/// The default size at which a segment is sealed: fifty megabytes.
pub const DEFAULT_MAX_SEGMENT_BYTES: usize = 50000000;

/// How a sink rotates and buffers.
#[derive(Clone, Copy, Debug, PartialEq, Eq, Structural)]
pub struct SinkConfig {
    /// A segment is sealed once this much time has passed since its creation.
    pub roll_window_ms: u64,
    /// A segment is sealed once its body has reached this many bytes.
    pub max_segment_bytes: usize,
    /// The number of records the channel holds before producers must wait.
    pub capacity: usize,
}

impl SinkConfig {
    /// All three bounds are positive.
    pub open spec fn valid(&self) -> bool {
        &&& self.roll_window_ms > 0
        &&& self.max_segment_bytes > 0
        &&& self.capacity > 0
    }

    /// The default configuration.
    pub fn standard() -> (r: SinkConfig)
        ensures
            r.valid(),
            r.roll_window_ms == DEFAULT_ROLL_WINDOW_MS,
            r.max_segment_bytes == DEFAULT_MAX_SEGMENT_BYTES,
            r.capacity == DEFAULT_CAPACITY,
    {
        SinkConfig {
            roll_window_ms: DEFAULT_ROLL_WINDOW_MS,
            max_segment_bytes: DEFAULT_MAX_SEGMENT_BYTES,
            capacity: DEFAULT_CAPACITY,
        }
    }
}

/// The life cycle of a sink: open for records, draining on shutdown (no new
/// records), closed once drained and sealed.
#[derive(Clone, Copy, Debug, PartialEq, Eq, Structural)]
pub enum SinkPhase {
    Open,
    Draining,
    Closed,
}

/// What became of an `enqueue` call.
#[derive(Clone, Copy, Debug, PartialEq, Eq, Structural)]
pub enum EnqueueStatus {
    /// The record is in the channel.
    Accepted,
    /// The channel is full: the producer must wait for a slot and try again.
    MustWait,
    /// The sink is shutting down or closed and takes no more records.
    SinkClosed,
}

/// The records of a sequence of sealed segments, in order.
pub open spec fn flatten(segs: Seq<SealedSegment>) -> Seq<Seq<u8>>
    decreases segs.len(),
{
    if segs.len() == 0 {
        Seq::empty()
    } else {
        flatten(segs.drop_last()) + segs.last().records@
    }
}

/// The sum of the record counts of a sequence of sealed segments.
pub open spec fn total_records(segs: Seq<SealedSegment>) -> int
    decreases segs.len(),
{
    if segs.len() == 0 {
        0
    } else {
        total_records(segs.drop_last()) + segs.last().record_count
    }
}

/// Whether sequence number `a` comes before `b`: strictly smaller, unless the
/// numbers have run up to the largest value, which they then keep.
pub open spec fn seq_before(a: u64, b: u64) -> bool {
    a < b || (a == u64::MAX && b == u64::MAX)
}

/// The sealed segments are non-empty and numbered in order, below the open
/// segment and the next number, and none below the floor.
pub open spec fn seq_order_ok(
    sealed: Seq<SealedSegment>,
    open: Option<OpenSegment>,
    next: u64,
    floor: u64,
) -> bool {
    &&& forall|i: int| 0 <= i < sealed.len() ==> (#[trigger] sealed[i]).records@.len() > 0
    &&& forall|i: int, j: int|
        0 <= i < j < sealed.len() ==> seq_before(#[trigger] sealed[i].seq, #[trigger] sealed[j].seq)
    &&& forall|i: int| 0 <= i < sealed.len() ==> {
        &&& seq_before((#[trigger] sealed[i]).seq, next)
        &&& sealed[i].seq >= floor
    }
    &&& (open matches Some(seg) ==> {
        &&& seg.records@.len() > 0
        &&& seq_before(seg.seq, next)
        &&& seg.seq >= floor
        &&& forall|i: int| 0 <= i < sealed.len() ==> seq_before(#[trigger] sealed[i].seq, seg.seq)
    })
    &&& floor <= next
}

/// Whether a segment created at `created_ms` is due for rotation at `now_ms`.
pub open spec fn time_due(created_ms: u64, now_ms: u64, window: u64) -> bool {
    now_ms - created_ms >= window
}

/// One sink: its channel, its open segment and the sealed segments not yet
/// handed to the shipper.
pub struct FileSink {
    config: SinkConfig,
    phase: SinkPhase,
    queue: Vec<Vec<u8>>,
    open: Option<OpenSegment>,
    sealed: Vec<SealedSegment>,
    next_seq: u64,
    seq_floor: Ghost<u64>,
    clock_ms: u64,
    accepted_log: Ghost<Seq<Seq<u8>>>,
    handed_log: Ghost<Seq<Seq<u8>>>,
}

impl FileSink {
    /// The configuration the sink was made with.
    pub closed spec fn config(&self) -> SinkConfig {
        self.config
    }

    /// The sink's phase.
    pub closed spec fn phase_of(&self) -> SinkPhase {
        self.phase
    }

    /// Every record accepted by `enqueue`, in arrival order.
    pub closed spec fn accepted(&self) -> Seq<Seq<u8>> {
        self.accepted_log@
    }

    /// The records of the sealed segments already handed out, in order.
    pub closed spec fn handed(&self) -> Seq<Seq<u8>> {
        self.handed_log@
    }

    /// The records waiting in the channel, oldest first.
    pub closed spec fn queued(&self) -> Seq<Seq<u8>> {
        record_views(self.queue@)
    }

    /// The sealed segments not yet handed out, oldest first.
    pub closed spec fn sealed_segments(&self) -> Seq<SealedSegment> {
        self.sealed@
    }

    /// The records in the open segment, if there is one.
    pub closed spec fn open_records(&self) -> Seq<Seq<u8>> {
        match self.open {
            Some(seg) => seg.records@,
            None => Seq::empty(),
        }
    }

    /// Whether a segment is open.
    pub closed spec fn has_open(&self) -> bool {
        self.open.is_some()
    }

    /// The creation time of the open segment.
    pub closed spec fn open_created(&self) -> u64 {
        self.open.unwrap().created_ms
    }

    /// The size in bytes of the open segment's body.
    pub closed spec fn open_size(&self) -> nat {
        self.open.unwrap().body@.len()
    }

    /// The sequence number the next segment opened will carry.
    pub closed spec fn next_seq(&self) -> u64 {
        self.next_seq
    }

    /// The sequence number of the open segment.
    pub closed spec fn open_seq(&self) -> u64 {
        self.open.unwrap().seq
    }

    /// No segment still in the sink, open or sealed, has a sequence number
    /// below this one; the segments handed out all have.
    pub closed spec fn seq_floor(&self) -> u64 {
        self.seq_floor@
    }

    /// The latest time the sink has been told of.
    pub closed spec fn clock(&self) -> u64 {
        self.clock_ms
    }

    /// The sink's invariant. Besides the bounds, it says that no accepted
    /// record is lost or reordered, and that the open segment is neither
    /// empty, nor due for rotation, nor at its size limit.
    pub closed spec fn wf(&self) -> bool {
        &&& self.config.valid()
        &&& self.queue@.len() <= self.config.capacity
        &&& forall|i: int| 0 <= i < self.sealed@.len() ==> #[trigger] self.sealed@[i].wf()
        &&& (self.open matches Some(seg) ==> {
            &&& seg.wf()
            &&& seg.records@.len() > 0
            &&& seg.created_ms <= self.clock_ms
            &&& !time_due(seg.created_ms, self.clock_ms, self.config.roll_window_ms)
            &&& seg.body@.len() < self.config.max_segment_bytes
        })
        &&& seq_order_ok(self.sealed@, self.open, self.next_seq, self.seq_floor@)
        &&& (self.phase == SinkPhase::Closed ==> self.queue@.len() == 0 && self.open.is_none())
        &&& self.accepted_log@ == self.handed_log@ + flatten(self.sealed@) + self.open_records()
            + record_views(self.queue@)
    }

    /// Segments sealed from `old` to `new` all closed at `now_ms`, none was
    /// created after it, and each stayed open less than one rotation window
    /// beyond the time that passed since `old`'s clock: with the clock moved
    /// on at least once per scheduling tick, no segment outlives its window
    /// by more than a tick.
    pub open spec fn seals_on_time(old: FileSink, new: FileSink, now_ms: u64) -> bool {
        &&& new.sealed_segments().len() >= old.sealed_segments().len()
        &&& new.sealed_segments().subrange(0, old.sealed_segments().len() as int)
            == old.sealed_segments()
        &&& forall|i: int|
            old.sealed_segments().len() <= i < new.sealed_segments().len() ==> {
                &&& (#[trigger] new.sealed_segments()[i]).sealed_ms == now_ms
                &&& new.sealed_segments()[i].created_ms <= now_ms
                &&& now_ms - new.sealed_segments()[i].created_ms < old.config().roll_window_ms
                    + (now_ms - old.clock())
            }
    }

    /// A fresh, open sink with an empty channel and no segment, whose first
    /// segment will carry sequence number `first_seq`.
    pub fn with_first_seq(config: SinkConfig, now_ms: u64, first_seq: u64) -> (r: FileSink)
        requires
            config.valid(),
        ensures
            r.wf(),
            r.config() == config,
            r.phase_of() == SinkPhase::Open,
            r.accepted() == Seq::<Seq<u8>>::empty(),
            r.handed() == Seq::<Seq<u8>>::empty(),
            r.queued() == Seq::<Seq<u8>>::empty(),
            r.sealed_segments() == Seq::<SealedSegment>::empty(),
            r.open_records() == Seq::<Seq<u8>>::empty(),
            !r.has_open(),
            r.clock() == now_ms,
            r.next_seq() == first_seq,
            r.seq_floor() == first_seq,
    {
        let r = FileSink {
            config,
            phase: SinkPhase::Open,
            queue: Vec::new(),
            open: None,
            sealed: Vec::new(),
            next_seq: first_seq,
            seq_floor: Ghost(first_seq),
            clock_ms: now_ms,
            accepted_log: Ghost(Seq::empty()),
            handed_log: Ghost(Seq::empty()),
        };
        assert(record_views(r.queue@) =~= Seq::<Seq<u8>>::empty());
        assert(r.accepted_log@ =~= r.handed_log@ + flatten(r.sealed@) + r.open_records()
            + record_views(r.queue@));
        r
    }

    /// A fresh, open sink whose segments are numbered from zero.
    pub fn new(config: SinkConfig, now_ms: u64) -> (r: FileSink)
        requires
            config.valid(),
        ensures
            r.wf(),
            r.config() == config,
            r.phase_of() == SinkPhase::Open,
            r.accepted() == Seq::<Seq<u8>>::empty(),
            r.handed() == Seq::<Seq<u8>>::empty(),
            r.queued() == Seq::<Seq<u8>>::empty(),
            r.sealed_segments() == Seq::<SealedSegment>::empty(),
            r.open_records() == Seq::<Seq<u8>>::empty(),
            !r.has_open(),
            r.clock() == now_ms,
            r.next_seq() == 0,
    {
        FileSink::with_first_seq(config, now_ms, 0)
    }

    /// The sink's phase.
    pub fn phase(&self) -> (r: SinkPhase)
        ensures
            r == self.phase_of(),
    {
        self.phase
    }

    /// The latest time the sink has been told of.
    pub fn clock_ms(&self) -> (r: u64)
        ensures
            r == self.clock(),
    {
        self.clock_ms
    }

    /// The number of records waiting in the channel.
    pub fn queue_len(&self) -> (r: usize)
        requires
            self.wf(),
        ensures
            r == self.queued().len(),
    {
        self.queue.len()
    }

    /// The number of sealed segments not yet handed out.
    pub fn sealed_count(&self) -> (r: usize)
        ensures
            r == self.sealed_segments().len(),
    {
        self.sealed.len()
    }

    /// The number of records in the open segment, zero if none is open.
    pub fn open_record_count(&self) -> (r: usize)
        requires
            self.wf(),
        ensures
            r == self.open_records().len(),
    {
        match &self.open {
            Some(seg) => seg.record_count,
            None => 0,
        }
    }

    /// Offers a record to the channel. An open sink with room takes it; a full
    /// one leaves everything as it was and tells the producer to wait; a sink
    /// that is draining or closed refuses it.
    pub fn enqueue(&mut self, record: &[u8]) -> (r: EnqueueStatus)
        requires
            old(self).wf(),
        ensures
            final(self).wf(),
            r == (if old(self).phase_of() != SinkPhase::Open {
                EnqueueStatus::SinkClosed
            } else if old(self).queued().len() >= old(self).config().capacity {
                EnqueueStatus::MustWait
            } else {
                EnqueueStatus::Accepted
            }),
            r != EnqueueStatus::Accepted ==> *final(self) == *old(self),
            r == EnqueueStatus::Accepted ==> {
                &&& final(self).accepted() == old(self).accepted().push(record@)
                &&& final(self).queued() == old(self).queued().push(record@)
                &&& final(self).handed() == old(self).handed()
                &&& final(self).sealed_segments() == old(self).sealed_segments()
                &&& final(self).open_records() == old(self).open_records()
                &&& final(self).phase_of() == old(self).phase_of()
                &&& final(self).config() == old(self).config()
                &&& final(self).clock() == old(self).clock()
                &&& final(self).has_open() == old(self).has_open()
            },
    {
        if self.phase != SinkPhase::Open {
            return EnqueueStatus::SinkClosed;
        }
        if self.queue.len() >= self.config.capacity {
            return EnqueueStatus::MustWait;
        }
        let mut copy: Vec<u8> = Vec::new();
        append_bytes(&mut copy, record);
        assert(copy@ =~= record@);
        let ghost q0 = self.queue@;
        self.queue.push(copy);
        self.accepted_log = Ghost(self.accepted_log@.push(record@));
        assert(record_views(self.queue@) =~= record_views(q0).push(record@));
        assert(self.accepted_log@ =~= self.handed_log@ + flatten(self.sealed@)
            + self.open_records() + record_views(self.queue@));
        EnqueueStatus::Accepted
    }

    /// Seals the open segment, if any, at `now_ms`.
    fn seal_open(&mut self, now_ms: u64)
        requires
            old(self).config.valid(),
            forall|i: int| 0 <= i < old(self).sealed@.len() ==> #[trigger] old(self).sealed@[i].wf(),
            old(self).open matches Some(seg) ==> seg.wf(),
            seq_order_ok(old(self).sealed@, old(self).open, old(self).next_seq, old(self).seq_floor@),
        ensures
            seq_order_ok(final(self).sealed@, final(self).open, final(self).next_seq, final(self).seq_floor@),
            final(self).seq_floor == old(self).seq_floor,
            final(self).open.is_none(),
            forall|i: int| 0 <= i < final(self).sealed@.len() ==> #[trigger] final(self).sealed@[i].wf(),
            flatten(final(self).sealed@) + final(self).open_records() == flatten(old(self).sealed@)
                + old(self).open_records(),
            final(self).sealed@.len() == old(self).sealed@.len() + (if old(self).open.is_some() {
                1int
            } else {
                0int
            }),
            final(self).sealed@.subrange(0, old(self).sealed@.len() as int) == old(self).sealed@,
            old(self).open matches Some(seg) ==> {
                &&& final(self).sealed@.last().sealed_ms == now_ms
                &&& final(self).sealed@.last().created_ms == seg.created_ms
            },
            final(self).config == old(self).config,
            final(self).phase == old(self).phase,
            final(self).queue == old(self).queue,
            final(self).next_seq == old(self).next_seq,
            final(self).clock_ms == old(self).clock_ms,
            final(self).accepted_log == old(self).accepted_log,
            final(self).handed_log == old(self).handed_log,
    {
        let taken = self.open.take();
        match taken {
            Some(seg) => {
                let ghost s0 = self.sealed@;
                let sealed = seg.seal(now_ms);
                self.sealed.push(sealed);
                assert(self.sealed@.drop_last() =~= s0);
                assert(self.sealed@.subrange(0, s0.len() as int) =~= s0);
                assert(flatten(self.sealed@) + self.open_records() =~= flatten(s0)
                    + seg.records@);
                assert forall|i: int| 0 <= i < self.sealed@.len() implies #[trigger] self.sealed@[i].wf() by {
                    if i < s0.len() {
                        assert(self.sealed@[i] == s0[i]);
                    }
                }
                assert forall|i: int, j: int| 0 <= i < j < self.sealed@.len() implies seq_before(
                    #[trigger] self.sealed@[i].seq,
                    #[trigger] self.sealed@[j].seq,
                ) by {
                    assert(self.sealed@[i] == s0[i]);
                    if j < s0.len() {
                        assert(self.sealed@[j] == s0[j]);
                    }
                }
                assert forall|i: int| 0 <= i < self.sealed@.len() implies (#[trigger] self.sealed@[i]).records@.len() > 0 && seq_before(self.sealed@[i].seq, self.next_seq) && self.sealed@[i].seq >= self.seq_floor@ by {
                    if i < s0.len() {
                        assert(self.sealed@[i] == s0[i]);
                    }
                }
            },
            None => {
                assert(self.sealed@.subrange(0, self.sealed@.len() as int) =~= self.sealed@);
                assert(flatten(self.sealed@) + self.open_records() =~= flatten(self.sealed@)
                    + Seq::<Seq<u8>>::empty());
            },
        }
    }

    /// Moves the sink's clock to `now_ms` and seals the open segment if its
    /// rotation window has elapsed.
    pub fn advance(&mut self, now_ms: u64)
        requires
            old(self).wf(),
            old(self).clock() <= now_ms,
        ensures
            final(self).wf(),
            final(self).clock() == now_ms,
            final(self).accepted() == old(self).accepted(),
            final(self).handed() == old(self).handed(),
            final(self).queued() == old(self).queued(),
            final(self).phase_of() == old(self).phase_of(),
            final(self).config() == old(self).config(),
            flatten(final(self).sealed_segments()) + final(self).open_records() == flatten(
                old(self).sealed_segments(),
            ) + old(self).open_records(),
            FileSink::seals_on_time(*old(self), *final(self), now_ms),
            old(self).has_open() ==> (final(self).has_open() <==> !time_due(
                old(self).open_created(),
                now_ms,
                old(self).config().roll_window_ms,
            )),
            !old(self).has_open() ==> !final(self).has_open(),
            final(self).has_open() ==> final(self).open_created() == old(self).open_created()
                && final(self).open_seq() == old(self).open_seq() && final(self).open_records()
                == old(self).open_records(),
            final(self).next_seq() == old(self).next_seq(),
            final(self).seq_floor() == old(self).seq_floor(),
    {
        let due = match &self.open {
            Some(seg) => now_ms - seg.created_ms >= self.config.roll_window_ms,
            None => false,
        };
        let ghost s0 = self.sealed@;
        if due {
            proof {
                let c = self.open.unwrap().created_ms;
                assert(self.clock_ms - c < self.config.roll_window_ms);
            }
            self.seal_open(now_ms);
        } else {
            assert(self.sealed@.subrange(0, s0.len() as int) =~= s0);
        }
        self.clock_ms = now_ms;
        assert(self.accepted_log@ =~= self.handed_log@ + flatten(self.sealed@)
            + self.open_records() + record_views(self.queue@));
    }

    /// Stamps a receive time for this sink: the later of `now_ms` and the
    /// sink's clock, which moves on to it as `advance` does. Stamps of one
    /// sink never go backwards.
    pub fn stamp(&mut self, now_ms: u64) -> (r: u64)
        requires
            old(self).wf(),
        ensures
            final(self).wf(),
            r >= now_ms,
            r >= old(self).clock(),
            r == now_ms || r == old(self).clock(),
            final(self).clock() == r,
            final(self).accepted() == old(self).accepted(),
            final(self).handed() == old(self).handed(),
            final(self).queued() == old(self).queued(),
            final(self).phase_of() == old(self).phase_of(),
            final(self).config() == old(self).config(),
            flatten(final(self).sealed_segments()) + final(self).open_records() == flatten(
                old(self).sealed_segments(),
            ) + old(self).open_records(),
            FileSink::seals_on_time(*old(self), *final(self), r),
    {
        let t = if now_ms > self.clock_ms {
            now_ms
        } else {
            self.clock_ms
        };
        self.advance(t);
        t
    }

    /// Takes the oldest queued record, if any, and appends it to the open
    /// segment, opening one first if none is open. The open segment is first
    /// rotated if its window has elapsed, and sealed after the append if it
    /// has reached the size limit. Returns whether a record was appended.
    pub fn consume_one(&mut self, now_ms: u64) -> (r: bool)
        requires
            old(self).wf(),
            old(self).clock() <= now_ms,
        ensures
            final(self).wf(),
            final(self).clock() == now_ms,
            r == (old(self).queued().len() > 0),
            final(self).accepted() == old(self).accepted(),
            final(self).handed() == old(self).handed(),
            final(self).phase_of() == old(self).phase_of(),
            final(self).config() == old(self).config(),
            r ==> final(self).queued() == old(self).queued().drop_first(),
            !r ==> final(self).queued() == old(self).queued(),
            flatten(final(self).sealed_segments()) + final(self).open_records() == flatten(
                old(self).sealed_segments(),
            ) + old(self).open_records() + (if r {
                seq![old(self).queued()[0]]
            } else {
                Seq::<Seq<u8>>::empty()
            }),
            FileSink::seals_on_time(*old(self), *final(self), now_ms),
            final(self).has_open() ==> (old(self).has_open() && final(self).open_created()
                == old(self).open_created() && final(self).open_seq() == old(self).open_seq()) || (
            final(self).open_created() == now_ms && final(self).open_seq() == old(self).next_seq()),
            final(self).seq_floor() == old(self).seq_floor(),
            final(self).has_open() ==> final(self).open_size() < final(self).config().max_segment_bytes,
    {
        let ghost old_self = *self;
        self.advance(now_ms);
        let ghost mid = *self;
        if self.queue.len() == 0 {
            assert(flatten(self.sealed@) + self.open_records() =~= flatten(old_self.sealed@)
                + old_self.open_records() + Seq::<Seq<u8>>::empty());
            return false;
        }
        let ghost q0 = self.queue@;
        let record = self.queue.remove(0);
        assert(record_views(self.queue@) =~= record_views(q0).drop_first());
        assert(record_views(q0)[0] == record@);
        let mut seg = match self.open.take() {
            Some(seg) => seg,
            None => {
                let seq = self.next_seq;
                if self.next_seq < u64::MAX {
                    self.next_seq = self.next_seq + 1;
                }
                OpenSegment::new(seq, now_ms)
            },
        };
        let ghost before = seg.records@;
        assert(before == mid.open_records());
        assert(seg.created_ms <= now_ms && now_ms - seg.created_ms < self.config.roll_window_ms);
        seg.append(record.as_slice());
        let full = seg.size() >= self.config.max_segment_bytes;
        self.open = Some(seg);
        assert(self.open_records() == mid.open_records().push(record@));
        let ghost pre_seal = *self;
        if full {
            self.seal_open(now_ms);
        } else {
            assert(self.sealed@.subrange(0, self.sealed@.len() as int) =~= self.sealed@);
        }
        proof {
            let n = pre_seal.sealed@.len() as int;
            assert(self.sealed@.subrange(0, n) == mid.sealed@);
            assert(FileSink::seals_on_time(mid, *self, now_ms));
            lemma_seals_on_time_trans(old_self, mid, *self, now_ms);
        }
        assert(flatten(self.sealed@) + self.open_records() =~= flatten(old_self.sealed@)
            + old_self.open_records() + seq![record_views(q0)[0]]);
        assert(self.accepted_log@ =~= self.handed_log@ + flatten(self.sealed@)
            + self.open_records() + record_views(self.queue@));
        true
    }

    /// Stops taking new records: later `enqueue` calls are refused, while
    /// queued records are still appended.
    pub fn close_intake(&mut self)
        requires
            old(self).wf(),
        ensures
            final(self).wf(),
            final(self).phase_of() == (if old(self).phase_of() == SinkPhase::Open {
                SinkPhase::Draining
            } else {
                old(self).phase_of()
            }),
            final(self).accepted() == old(self).accepted(),
            final(self).handed() == old(self).handed(),
            final(self).queued() == old(self).queued(),
            final(self).sealed_segments() == old(self).sealed_segments(),
            final(self).open_records() == old(self).open_records(),
            final(self).config() == old(self).config(),
            final(self).clock() == old(self).clock(),
    {
        if self.phase == SinkPhase::Open {
            self.phase = SinkPhase::Draining;
        }
    }

    /// Hands the sealed segments to the shipper, oldest first.
    pub fn take_sealed(&mut self) -> (r: Vec<SealedSegment>)
        requires
            old(self).wf(),
        ensures
            final(self).wf(),
            r@ == old(self).sealed_segments(),
            forall|i: int| 0 <= i < r@.len() ==> #[trigger] r@[i].wf(),
            forall|i: int| 0 <= i < r@.len() ==> (#[trigger] r@[i]).records@.len() > 0,
            forall|i: int, j: int| 0 <= i < j < r@.len() ==> seq_before(#[trigger] r@[i].seq, #[trigger] r@[j].seq),
            forall|i: int| 0 <= i < r@.len() ==> seq_before(#[trigger] r@[i].seq, final(self).seq_floor()),
            final(self).seq_floor() >= old(self).seq_floor(),
            final(self).next_seq() == old(self).next_seq(),
            final(self).sealed_segments() == Seq::<SealedSegment>::empty(),
            final(self).handed() == old(self).handed() + flatten(old(self).sealed_segments()),
            final(self).accepted() == old(self).accepted(),
            final(self).queued() == old(self).queued(),
            final(self).open_records() == old(self).open_records(),
            final(self).phase_of() == old(self).phase_of(),
            final(self).config() == old(self).config(),
            final(self).clock() == old(self).clock(),
    {
        let mut taken: Vec<SealedSegment> = Vec::new();
        std::mem::swap(&mut self.sealed, &mut taken);
        self.handed_log = Ghost(self.handed_log@ + flatten(taken@));
        let ghost floor = if self.open.is_some() {
            self.open.unwrap().seq
        } else {
            self.next_seq
        };
        self.seq_floor = Ghost(floor);
        assert(flatten(self.sealed@) =~= Seq::<Seq<u8>>::empty());
        assert(self.accepted_log@ =~= self.handed_log@ + flatten(self.sealed@)
            + self.open_records() + record_views(self.queue@));
        taken
    }

    /// Shuts the sink down at `now_ms`: refuses new records, appends every
    /// queued record in order, seals the open segment and closes.
    pub fn shutdown(&mut self, now_ms: u64)
        requires
            old(self).wf(),
            old(self).clock() <= now_ms,
        ensures
            final(self).wf(),
            final(self).phase_of() == SinkPhase::Closed,
            final(self).queued() == Seq::<Seq<u8>>::empty(),
            !final(self).has_open(),
            final(self).accepted() == old(self).accepted(),
            final(self).handed() == old(self).handed(),
            final(self).handed() + flatten(final(self).sealed_segments()) == final(self).accepted(),
            FileSink::seals_on_time(*old(self), *final(self), now_ms),
    {
        let ghost old_self = *self;
        self.close_intake();
        assert(self.sealed@.subrange(0, self.sealed@.len() as int) =~= self.sealed@);
        while self.queue.len() > 0
            invariant
                self.wf(),
                self.clock_ms <= now_ms,
                self.accepted_log == old_self.accepted_log,
                self.handed_log == old_self.handed_log,
                self.config == old_self.config,
                self.phase != SinkPhase::Open,
                FileSink::seals_on_time(old_self, *self, now_ms),
                old_self.clock_ms <= self.clock_ms,
            decreases self.queue@.len(),
        {
            let ghost before = *self;
            self.consume_one(now_ms);
            proof {
                lemma_seals_on_time_trans(old_self, before, *self, now_ms);
            }
        }
        let ghost before = *self;
        proof {
            if self.open.is_some() {
                let seg = self.open.unwrap();
                assert(now_ms - seg.created_ms < self.config.roll_window_ms + (now_ms
                    - self.clock_ms));
            }
        }
        self.seal_open(now_ms);
        proof {
            let n1 = before.sealed@.len() as int;
            assert(self.sealed@.subrange(0, n1) == before.sealed@);
            assert(FileSink::seals_on_time(before, *self, now_ms));
            lemma_seals_on_time_trans(old_self, before, *self, now_ms);
        }
        self.clock_ms = now_ms;
        self.phase = SinkPhase::Closed;
        assert(record_views(self.queue@) =~= Seq::<Seq<u8>>::empty());
        assert(self.accepted_log@ =~= self.handed_log@ + flatten(self.sealed@)
            + self.open_records() + record_views(self.queue@));
    }
}

/// What the sink's invariant guarantees: the channel holds at most its
/// capacity; an open segment is non-empty, below the size limit and not yet
/// due for rotation; sealed segments are well formed and non-empty; a closed
/// sink holds nothing queued or open.
pub proof fn lemma_sink_bounds(s: FileSink)
    requires
        s.wf(),
    ensures
        s.config().valid(),
        s.queued().len() <= s.config().capacity,
        s.has_open() ==> {
            &&& s.open_size() < s.config().max_segment_bytes
            &&& s.open_records().len() > 0
            &&& s.open_created() <= s.clock()
            &&& !time_due(s.open_created(), s.clock(), s.config().roll_window_ms)
            &&& seq_before(s.open_seq(), s.next_seq())
        },
        !s.has_open() ==> s.open_records() == Seq::<Seq<u8>>::empty(),
        forall|i: int| 0 <= i < s.sealed_segments().len() ==> (#[trigger] s.sealed_segments()[i]).wf()
            && s.sealed_segments()[i].records@.len() > 0,
        forall|i: int, j: int| 0 <= i < j < s.sealed_segments().len() ==> seq_before(
            #[trigger] s.sealed_segments()[i].seq,
            #[trigger] s.sealed_segments()[j].seq,
        ),
        s.phase_of() == SinkPhase::Closed ==> s.queued().len() == 0 && !s.has_open(),
{
}

/// The records of well-formed sealed segments number the sum of their
/// record counts.
pub proof fn lemma_total_records(segs: Seq<SealedSegment>)
    requires
        forall|i: int| 0 <= i < segs.len() ==> #[trigger] segs[i].wf(),
    ensures
        total_records(segs) == flatten(segs).len(),
    decreases segs.len(),
{
    if segs.len() > 0 {
        assert forall|i: int| 0 <= i < segs.drop_last().len() implies #[trigger] segs.drop_last()[i].wf() by {
            assert(segs.drop_last()[i] == segs[i]);
        }
        lemma_total_records(segs.drop_last());
        assert(segs[segs.len() - 1].wf());
    }
}

/// After a clean shutdown nothing accepted is lost: the segments handed out
/// and those still sealed in the sink hold every accepted record, in arrival
/// order, and as many records as `enqueue` accepted.
pub proof fn lemma_shutdown_keeps_every_record(s: FileSink)
    requires
        s.wf(),
        s.phase_of() == SinkPhase::Closed,
    ensures
        s.handed() + flatten(s.sealed_segments()) == s.accepted(),
        s.handed().len() + total_records(s.sealed_segments()) == s.accepted().len(),
{
    assert(record_views(s.queue@) =~= Seq::<Seq<u8>>::empty());
    assert(s.open_records() =~= Seq::<Seq<u8>>::empty());
    assert(s.handed() + flatten(s.sealed_segments()) =~= s.accepted());
    lemma_total_records(s.sealed_segments());
}

/// When the sink's clock is moved on at least once every `tick_ms`, no
/// segment stays open longer than the rotation window plus one tick.
pub proof fn lemma_rotation_span(old: FileSink, new: FileSink, now_ms: u64, tick_ms: u64)
    requires
        FileSink::seals_on_time(old, new, now_ms),
        old.clock() <= now_ms,
        now_ms - old.clock() <= tick_ms,
    ensures
        forall|i: int|
            old.sealed_segments().len() <= i < new.sealed_segments().len() ==> (
            #[trigger] new.sealed_segments()[i]).sealed_ms - new.sealed_segments()[i].created_ms
                <= old.config().roll_window_ms + tick_ms,
{
}

/// Sealing on time composes over successive steps taken at one time.
proof fn lemma_seals_on_time_trans(a: FileSink, b: FileSink, c: FileSink, now_ms: u64)
    requires
        FileSink::seals_on_time(a, b, now_ms),
        FileSink::seals_on_time(b, c, now_ms),
        a.clock() <= b.clock(),
        b.clock() <= now_ms,
        a.config() == b.config(),
    ensures
        FileSink::seals_on_time(a, c, now_ms),
{
    let na = a.sealed_segments().len() as int;
    let nb = b.sealed_segments().len() as int;
    assert(c.sealed_segments().subrange(0, na) =~= c.sealed_segments().subrange(0, nb).subrange(
        0,
        na,
    ));
    assert forall|i: int| na <= i < c.sealed_segments().len() implies {
        &&& (#[trigger] c.sealed_segments()[i]).sealed_ms == now_ms
        &&& c.sealed_segments()[i].created_ms <= now_ms
        &&& now_ms - c.sealed_segments()[i].created_ms < a.config().roll_window_ms + (now_ms
            - a.clock())
    } by {
        if i < nb {
            assert(c.sealed_segments()[i] == c.sealed_segments().subrange(0, nb)[i]);
            assert(b.sealed_segments()[i] == c.sealed_segments()[i]);
        }
    }
}

} // verus!
