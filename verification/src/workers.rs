//! The decisions of the input and decode workers: which jobs take part in a
//! pass, how incoming messages change the job list, and in which order the
//! input jobs are served. Times are `f64` seconds held as their bit
//! patterns.
use crate::audio_ring::AudioRingView;
use crate::errors::Error;
use crate::float_bits::{le, less, less_eq, lt, total_rank};
use crate::frame_queue::FrameQueueView;
use crate::packet_queue::PacketQueueView;
use crate::sorting::{insert_by, lemma_insert_at, sort_by_key};
use vstd::prelude::*;

verus! {

/// Bit pattern of 5.0: the seconds of packets the input worker keeps queued.
pub const FIVE_SECONDS_BITS: u64 = 0x4014_0000_0000_0000;

/// Whether the queues of a job agree with the source's serial: the first
/// attached queue whose serial is not `serial` decides, agreeing only when
/// it has seen no packet yet; with no such queue they agree.
pub open spec fn serials_agree(views: Seq<Option<PacketQueueView>>, serial: u32) -> bool
    decreases views.len(),
{
    if views.len() == 0 {
        true
    } else {
        match views[0] {
            Some(v) => if v.state().initialized && v.state().serial == serial {
                serials_agree(views.drop_first(), serial)
            } else {
                !v.state().initialized
            },
            None => serials_agree(views.drop_first(), serial),
        }
    }
}

/// Whether the packet queues attached to a job (`None` where none is) hold
/// packets of `serial`, as the input worker asks before reading on.
pub fn serial_matches(views: &Vec<Option<PacketQueueView>>, serial: u32) -> (b: bool)
    ensures
        b == serials_agree(views@, serial),
{
    let mut i: usize = 0;
    assert(views@.skip(0) =~= views@);
    while i < views.len()
        invariant
            i <= views.len(),
            serials_agree(views@, serial) == serials_agree(views@.skip(i as int), serial),
        decreases views.len() - i,
    {
        assert(views@.skip(i as int)[0] == views@[i as int]);
        assert(views@.skip(i as int).drop_first() =~= views@.skip(i + 1));
        if let Some(view) = &views[i] {
            match view.serial() {
                Some(current) => {
                    if current != serial {
                        return false;
                    }
                },
                None => {
                    return true;
                },
            }
        }
        i = i + 1;
    }
    true
}

/// The least of the given spans (`None` entries skipped), the first one
/// kept on ties and NaNs; `None` when there is none.
pub open spec fn least_span(spans: Seq<Option<u64>>) -> Option<u64>
    decreases spans.len(),
{
    if spans.len() == 0 {
        None
    } else {
        let rest = least_span(spans.drop_last());
        match spans.last() {
            None => rest,
            Some(q) => match rest {
                None => Some(q),
                Some(c) => if lt(q, c) {
                    Some(q)
                } else {
                    Some(c)
                },
            },
        }
    }
}

/// The least queued span of a job's queues: `spans` holds, per queue, the
/// seconds it holds (`None` for no queue or none seen).
pub fn min_queued(spans: &Vec<Option<u64>>) -> (r: Option<u64>)
    ensures
        r == least_span(spans@),
{
    let mut current: Option<u64> = None;
    let mut i: usize = 0;
    while i < spans.len()
        invariant
            i <= spans.len(),
            current == least_span(spans@.take(i as int)),
        decreases spans.len() - i,
    {
        assert(spans@.take(i + 1).drop_last() =~= spans@.take(i as int));
        if let Some(q) = spans[i] {
            match current {
                Some(c) => {
                    if less(q, c) {
                        current = Some(q);
                    }
                },
                None => {
                    current = Some(q);
                },
            }
        }
        i = i + 1;
    }
    assert(spans@.take(spans.len() as int) =~= spans@);
    current
}

/// Whether a job's queues want more packets: the least span is under five
/// seconds, or no queue has one.
pub open spec fn wants_packets(least: Option<u64>) -> bool {
    match least {
        Some(q) => lt(q, FIVE_SECONDS_BITS),
        None => true,
    }
}

/// Whether a source-reading job takes part in a pass: its queues want
/// packets or hold another serial, and the source has not failed.
pub fn input_job_ready(least: Option<u64>, serials_match: bool, read_error: bool) -> (b: bool)
    ensures
        b == ((wants_packets(least) || !serials_match) && !read_error),
{
    let has_space = match least {
        Some(q) => less(q, FIVE_SECONDS_BITS),
        None => true,
    };
    (has_space || !serials_match) && !read_error
}

/// Whether a cache-reading job takes part in a pass: its queues want packets
/// or hold another serial, and five seconds are cached ahead (or the cache
/// is sealed and holds something). `cached_bits` is the span cached ahead.
pub fn cache_job_ready(least: Option<u64>, serials_match: bool, sealed: bool, cached_bits: u64) -> (b: bool)
    ensures
        b == ((wants_packets(least) || !serials_match) && (le(FIVE_SECONDS_BITS, cached_bits) || (
        sealed && lt(0, cached_bits)))),
{
    let has_space = match least {
        Some(q) => less(q, FIVE_SECONDS_BITS),
        None => true,
    };
    (has_space || !serials_match) && (less_eq(FIVE_SECONDS_BITS, cached_bits) || (sealed && less(
        0,
        cached_bits,
    )))
}

/// The serving order key of an input job: its least span, 0.0 when none,
/// ranked in reverse (jobs with most queued come first).
pub open spec fn by_queued_desc(mins: Seq<u64>) -> spec_fn(int) -> int {
    |i: int| -total_rank(mins[i])
}

/// The positions `0..n`.
pub open spec fn positions(n: nat) -> Seq<int> {
    Seq::new(n, |i: int| i)
}

/// The order in which input jobs are served: by their least queued span,
/// largest first (`f64::total_cmp`), jobs of equal span in list order.
pub fn serving_order(mins: &Vec<u64>) -> (order: Vec<usize>)
    ensures
        order@.map_values(|i: usize| i as int) == sort_by_key(positions(mins.len() as nat), by_queued_desc(mins@)),
{
    let mut order: Vec<usize> = Vec::new();
    let ghost key = by_queued_desc(mins@);
    let ghost all = positions(mins.len() as nat);
    let mut k: usize = 0;
    while k < mins.len()
        invariant
            k <= mins.len(),
            key == by_queued_desc(mins@),
            all == positions(mins.len() as nat),
            order@.map_values(|i: usize| i as int) == sort_by_key(all.take(k as int), key),
            forall|m: int| 0 <= m < order.len() ==> #[trigger] order@[m] < mins.len(),
        decreases mins.len() - k,
    {
        assert(all.take(k + 1).drop_last() =~= all.take(k as int));
        assert(all.take(k + 1).last() == k as int);
        let ghost w = order@.map_values(|i: usize| i as int);
        let mut j = order.len();
        while j > 0 && crate::float_bits::total_less(mins[order[j - 1]], mins[k])
            invariant
                j <= order.len(),
                w == order@.map_values(|i: usize| i as int),
                forall|m: int| 0 <= m < order.len() ==> #[trigger] order@[m] < mins.len(),
                k < mins.len(),
                key == by_queued_desc(mins@),
                forall|m: int| j <= m < order.len() ==> key(k as int) < key(#[trigger] w[m]),
            decreases j,
        {
            j = j - 1;
        }
        proof {
            lemma_insert_at(w, k as int, key, j as int);
        }
        order.insert(j, k);
        assert(order@.map_values(|i: usize| i as int) =~= w.insert(j as int, k as int));
        k = k + 1;
    }
    assert(all.take(mins.len() as int) =~= all);
    order
}

/// The consumer of a decode job, as the decode worker sees it.
pub enum ConsumerView {
    Audio(AudioRingView),
    Video(FrameQueueView),
}

impl ConsumerView {
    /// Whether the consumer was closed (the job then ends).
    pub fn is_closed(&self) -> (b: bool)
        ensures
            b == match self {
                ConsumerView::Audio(ring) => ring.closed_spec(),
                ConsumerView::Video(queue) => queue.closed_spec(),
            },
    {
        match self {
            ConsumerView::Audio(ring) => ring.closed(),
            ConsumerView::Video(queue) => queue.closed(),
        }
    }
}

/// Whether an input job stays: none of its attached queues was closed.
pub fn job_alive(views: &Vec<Option<PacketQueueView>>) -> (b: bool)
    ensures
        b == forall|i: int|
            0 <= i < views.len() ==> !(#[trigger] views@[i] matches Some(v) && v.state().closed),
{
    let mut i: usize = 0;
    while i < views.len()
        invariant
            i <= views.len(),
            forall|j: int| 0 <= j < i ==> !(#[trigger] views@[j] matches Some(v) && v.state().closed),
        decreases views.len() - i,
    {
        if let Some(v) = &views[i] {
            if v.closed() {
                return false;
            }
        }
        i = i + 1;
    }
    true
}

/// A command to an input job.
pub enum InputCommand<Q> {
    /// Start reading.
    Begin,
    /// Seek: earliest and target times (`f64` bits) and the stream whose
    /// time base they are given in, if any.
    Seek(u64, u64, Option<i32>),
    /// Attach queue `Q` for the stream of this index.
    PutQueue(usize, Q),
}

/// A seek request of an input job: earliest and target times (`f64` bits)
/// and the stream whose time base they are given in, if any.
pub type SeekRequest = (u64, u64, Option<i32>);

/// Applies one command received by an input job: a queue is attached at its
/// stream index, a begin starts the job, a seek replaces any seek still
/// pending (the job carries out the last one once its commands are read).
pub fn apply_command<Q>(entries: &mut Vec<Option<Q>>, begin: &mut bool, seek: &mut Option<SeekRequest>, command: InputCommand<Q>)
    requires
        command matches InputCommand::PutQueue(k, _) ==> k < old(entries).len(),
    ensures
        match command {
            InputCommand::Begin => *final(begin) && final(entries)@ == old(entries)@ && *final(seek)
                == *old(seek),
            InputCommand::Seek(lo, hi, st) => *final(seek) == Some((lo, hi, st)) && *final(begin)
                == *old(begin) && final(entries)@ == old(entries)@,
            InputCommand::PutQueue(k, q) => final(entries)@ == old(entries)@.update(k as int, Some(q))
                && *final(begin) == *old(begin) && *final(seek) == *old(seek),
        },
{
    match command {
        InputCommand::Begin => {
            *begin = true;
        },
        InputCommand::Seek(lo, hi, st) => {
            *seek = Some((lo, hi, st));
        },
        InputCommand::PutQueue(k, q) => {
            entries.set(k, Some(q));
        },
    }
}

/// Whether a decode job's consumer can take what it would decode for a
/// packet queue of serial `serial`. An audio consumer can when no converted
/// frame waits, or the waiting part (`pending` samples of a frame of serial
/// `frame_serial`) fits or belongs to another serial. A video consumer can
/// when its serial differs (its frames will be dropped) or a slot is free.
pub fn consumer_has_space_and_serial(
    consumer: &ConsumerView,
    waiting: Option<Option<u32>>,
    pending: usize,
    serial: Option<u32>,
) -> (b: bool)
    ensures
        b == match consumer {
            ConsumerView::Audio(ring) => match waiting {
                Some(frame_serial) => ring.capacity_spec() - ring.size_spec() >= pending
                    || frame_serial != serial,
                None => true,
            },
            ConsumerView::Video(queue) => Some(queue.serial_spec()) != serial || queue.capacity_spec()
                - queue.size_spec() > 0,
        },
{
    match consumer {
        ConsumerView::Audio(ring) => {
            let remaining_space = ring.remaining();
            match waiting {
                Some(frame_serial) => remaining_space >= pending || frame_serial != serial,
                None => true,
            }
        },
        ConsumerView::Video(queue) => {
            if Some(queue.serial()) != serial {
                return true;
            }
            queue.remaining_space() > 0
        },
    }
}

/// Whether a decode job takes part in a pass: its consumer has room, and,
/// when the decoder asked for input, its packet queue holds a positive span
/// (`queued_bits`, 0.0 when nothing was seen).
pub fn decode_job_ready(needs_input: bool, consumer_space: bool, queued_bits: u64) -> (b: bool)
    ensures
        b == if needs_input {
            consumer_space && lt(0, queued_bits)
        } else {
            consumer_space
        },
{
    if needs_input {
        consumer_space && less(0, queued_bits)
    } else {
        consumer_space
    }
}

/// What a decoder answered when asked for a frame.
pub enum DecoderResult {
    FrameReceived,
    NeedsInput,
    Error(Error),
}

/// What the decode worker does after asking a decoder for a frame.
#[derive(PartialEq, Eq, Structural, Clone, Copy)]
pub enum DecodeStep {
    /// Report the error and go on.
    ReportError,
    /// Hand the frame to the consumer.
    WriteFrame,
    /// Send the packet just taken from the queue to the decoder.
    SendPacket,
    /// The queue is empty: mark the job as waiting for input and wake the
    /// input worker.
    RequestInput,
}

/// The step after `result`; `packet_taken` says whether a packet could be
/// taken from the job's queue (asked only when the decoder needs input).
pub fn decode_step(result: &DecoderResult, packet_taken: bool) -> (s: DecodeStep)
    ensures
        s == match result {
            DecoderResult::Error(_) => DecodeStep::ReportError,
            DecoderResult::FrameReceived => DecodeStep::WriteFrame,
            DecoderResult::NeedsInput => if packet_taken {
                DecodeStep::SendPacket
            } else {
                DecodeStep::RequestInput
            },
        },
{
    match result {
        DecoderResult::Error(_) => DecodeStep::ReportError,
        DecoderResult::FrameReceived => DecodeStep::WriteFrame,
        DecoderResult::NeedsInput => if packet_taken {
            DecodeStep::SendPacket
        } else {
            DecodeStep::RequestInput
        },
    }
}

/// A message to a worker.
pub enum WorkerMessage<J> {
    /// Stop.
    End,
    /// Something changed: run a pass.
    Wakeup,
    /// A new job.
    Job(J),
}

/// The jobs of a worker and whether it was told to stop.
pub struct WorkerJobs<J> {
    pub jobs: Vec<J>,
    pub close: bool,
}

impl<J> WorkerJobs<J> {
    /// No jobs, running.
    pub fn new() -> (w: WorkerJobs<J>)
        ensures
            w.jobs@ == Seq::<J>::empty(),
            !w.close,
    {
        WorkerJobs { jobs: Vec::new(), close: false }
    }

    /// Handles a message and says whether a pass should run: a wakeup asks
    /// for one, a job joins the list and asks for one, the end marks the
    /// worker closed and asks for none.
    pub fn handle_message(&mut self, message: WorkerMessage<J>) -> (pass: bool)
        ensures
            match message {
                WorkerMessage::End => !pass && final(self).close && final(self).jobs@ == old(self).jobs@,
                WorkerMessage::Wakeup => pass && *final(self) == *old(self),
                WorkerMessage::Job(j) => pass && final(self).close == old(self).close
                    && final(self).jobs@ == old(self).jobs@.push(j),
            },
    {
        match message {
            WorkerMessage::End => {
                self.close = true;
                false
            },
            WorkerMessage::Wakeup => true,
            WorkerMessage::Job(job) => {
                self.jobs.push(job);
                true
            },
        }
    }
}

/// The serial the video playback follows after seeing the frame queue at
/// `frame_serial`, and whether its frame timing restarts: it adopts the
/// queue's serial, restarting when it followed another one.
pub fn follow_serial(current: Option<u32>, frame_serial: u32) -> (r: (Option<u32>, bool))
    ensures
        r == (Some(frame_serial), match current {
            Some(s) => s != frame_serial,
            None => false,
        }),
{
    match current {
        Some(s) => (Some(frame_serial), s != frame_serial),
        None => (Some(frame_serial), false),
    }
}

/// The part of a converted audio frame still to be written: `pending`
/// samples at the end of a plane of `plane_len` samples (start, end).
pub fn pending_range(plane_len: usize, pending: usize) -> (r: (usize, usize))
    requires
        pending <= plane_len,
    ensures
        r == ((plane_len - pending) as usize, plane_len),
{
    let begin = plane_len - pending;
    (begin, begin + pending)
}

} // verus!
