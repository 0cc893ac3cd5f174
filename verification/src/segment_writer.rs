//! The decisions of the cache writer: which stream's keyframes index a
//! segment, how a written packet updates the segment's index and key
//! offsets, where a seek of the writer goes, and which earlier segment the
//! one being written runs into.
use crate::packet::{same_packet, Packet, PacketView, NO_PTS, PACKET_FLAG_KEY};
use crate::segment_index::{covers, seek_result, SeekPoint, SegmentState, SegmentView};
use crate::float_bits::{le, lt};
use crate::stream::{Stream, StreamType};
use vstd::prelude::*;

verus! {

/// Index of the first video stream of the list, if any.
pub open spec fn first_video(streams: Seq<(i32, StreamType)>) -> Option<i32>
    decreases streams.len(),
{
    if streams.len() == 0 {
        None
    } else if streams[0].1 == StreamType::Video {
        Some(streams[0].0)
    } else {
        first_video(streams.drop_first())
    }
}

/// The index and type of each stream.
pub open spec fn kinds(streams: Seq<Stream>) -> Seq<(i32, StreamType)> {
    streams.map_values(|s: Stream| (s.index, s.stream_type))
}

/// The stream whose keyframes index a new segment: the first video stream.
pub fn preferred_stream(streams: &Vec<Stream>) -> (p: Option<i32>)
    ensures
        p == first_video(kinds(streams@)),
{
    let ghost k = kinds(streams@);
    assert(k.skip(0) =~= k);
    let mut i: usize = 0;
    while i < streams.len()
        invariant
            i <= streams.len(),
            k == kinds(streams@),
            first_video(k) == first_video(k.skip(i as int)),
        decreases streams.len() - i,
    {
        assert(k.skip(i as int)[0] == (streams@[i as int].index, streams@[i as int].stream_type));
        assert(k.skip(i as int).drop_first() =~= k.skip(i + 1));
        if streams[i].stream_type == StreamType::Video {
            return Some(streams[i].index);
        }
        i = i + 1;
    }
    assert(k.skip(i as int).len() == 0);
    None
}

/// Plain value of a `SegmentKeys`.
pub struct KeysState {
    pub first_key: Option<u64>,
    pub last_key: Option<u64>,
    pub preferred: Option<i32>,
    pub empty_jump: Option<u64>,
}

/// The file offsets of the first and last indexed keyframe of a segment
/// being written, the stream whose keyframes are indexed, and the offset of
/// the empty jump that ended the segment, if one did.
pub struct SegmentKeys {
    first_key: Option<u64>,
    last_key: Option<u64>,
    preferred: Option<i32>,
    empty_jump: Option<u64>,
}

/// Whether a written packet is indexed: it has a timestamp, is a key frame,
/// and belongs to the preferred stream (any stream when there is none).
pub open spec fn written_key(k: KeysState, p: Packet) -> bool {
    &&& p.pts != NO_PTS
    &&& (p.flags & PACKET_FLAG_KEY) > 0
    &&& match k.preferred {
        Some(s) => s == p.stream_index,
        None => true,
    }
}

/// Only key frames with a timestamp are indexed, and only of the indexed
/// stream: a packet whose key flag is clear, or without a timestamp, or of
/// another stream than the preferred one, is never indexed.
pub proof fn lemma_only_keyframes_indexed(k: KeysState, p: Packet)
    ensures
        written_key(k, p) ==> (p.flags & PACKET_FLAG_KEY) != 0,
        written_key(k, p) ==> p.pts != NO_PTS,
        written_key(k, p) && k.preferred is Some ==> k.preferred == Some(p.stream_index),
        (p.flags & PACKET_FLAG_KEY) == 0 ==> !written_key(k, p),
{
}

impl SegmentKeys {
    pub closed spec fn state(&self) -> KeysState {
        KeysState {
            first_key: self.first_key,
            last_key: self.last_key,
            preferred: self.preferred,
            empty_jump: self.empty_jump,
        }
    }

    /// No keyframe written yet; `preferred` is the indexed stream.
    pub fn new(preferred: Option<i32>) -> (k: SegmentKeys)
        ensures
            k.state() == (KeysState { first_key: None, last_key: None, preferred, empty_jump: None }),
    {
        SegmentKeys { first_key: None, last_key: None, preferred, empty_jump: None }
    }

    /// Ends the segment at `write_index`, where an empty jump is then written
    /// (to be filled in when the segment is continued), unless the segment is
    /// sealed. Says whether the jump is written.
    pub fn end(&mut self, sealed: bool, write_index: u64) -> (write: bool)
        ensures
            write == !sealed,
            final(self).state() == if sealed {
                old(self).state()
            } else {
                KeysState { empty_jump: Some(write_index), ..old(self).state() }
            },
    {
        if sealed {
            return false;
        }
        self.empty_jump = Some(write_index);
        true
    }

    /// The offset of the empty jump that ended the segment, now to be filled
    /// in; the segment no longer has one.
    pub fn take_empty_jump(&mut self) -> (j: Option<u64>)
        ensures
            j == old(self).state().empty_jump,
            final(self).state() == (KeysState { empty_jump: None, ..old(self).state() }),
    {
        let j = self.empty_jump;
        self.empty_jump = None;
        j
    }

    /// Offset of the first indexed keyframe.
    pub fn first_key(&self) -> (k: Option<u64>)
        ensures
            k == self.state().first_key,
    {
        self.first_key
    }

    /// Offset of the last indexed keyframe.
    pub fn last_key(&self) -> (k: Option<u64>)
        ensures
            k == self.state().last_key,
    {
        self.last_key
    }

    /// The indexed stream.
    pub fn preferred(&self) -> (p: Option<i32>)
        ensures
            p == self.state().preferred,
    {
        self.preferred
    }

    /// Notes a packet about to be written at `write_index`. An indexed
    /// keyframe (time `time_bits`: timestamp times its stream's time base)
    /// widens the segment's range, becomes the last key offset (and the
    /// first, if none was), and joins the keyframe table unless, with no
    /// preferred stream, it lies within half a second of the table's last
    /// point (`near_last`, computed by the caller from that point).
    pub fn update(
        &mut self,
        index: &mut SegmentView,
        packet: &Packet,
        time_bits: u64,
        near_last: bool,
        write_index: usize,
    )
        ensures
            ({
                let k = old(self).state();
                let s = old(index)@;
                if written_key(k, *packet) {
                    let push = s.table.len() == 0 || !near_last || k.preferred is Some;
                    &&& final(self).state() == KeysState {
                        first_key: match k.first_key {
                            Some(f) => Some(f),
                            None => Some(write_index as u64),
                        },
                        last_key: Some(write_index as u64),
                        ..k
                    }
                    &&& final(index)@ == SegmentState {
                        begin: if lt(time_bits, s.begin) || crate::float_bits::nan(s.begin) {
                            time_bits
                        } else {
                            s.begin
                        },
                        end: if lt(s.end, time_bits) || crate::float_bits::nan(s.end) {
                            time_bits
                        } else {
                            s.end
                        },
                        table: if push {
                            s.table.push(SeekPoint { pts_bits: time_bits, stream: packet.stream_index, offset: write_index })
                        } else {
                            s.table
                        },
                        ..s
                    }
                } else {
                    final(self).state() == k && final(index)@ == s
                }
            }),
            (packet.flags & PACKET_FLAG_KEY) == 0 || packet.pts == NO_PTS ==> final(self).state()
                == old(self).state() && final(index)@ == old(index)@,
            packet.pts != NO_PTS && (packet.flags & PACKET_FLAG_KEY) != 0 && (old(self).state().preferred is None
                || old(self).state().preferred == Some(packet.stream_index)) ==> {
                &&& final(self).state().last_key == Some(write_index as u64)
                &&& old(self).state().first_key is None ==> final(self).state().first_key == Some(
                    write_index as u64,
                )
                &&& !crate::float_bits::nan(time_bits) ==> le(final(index)@.begin, time_bits) && le(
                    time_bits,
                    final(index)@.end,
                )
                &&& crate::segment_index::has_range(old(index)@) && !crate::float_bits::nan(time_bits)
                    ==> le(final(index)@.begin, old(index)@.begin) && le(old(index)@.end, final(index)@.end)
            },
    {
        let filter = match self.preferred {
            Some(p) => p == packet.stream_index,
            None => true,
        };
        let flags = packet.flags;
        assert((flags & PACKET_FLAG_KEY) != 0 ==> (flags & PACKET_FLAG_KEY) > 0) by (bit_vector);
        if packet.pts != NO_PTS && packet.is_key() && filter {
            let has_last = index.last_point().is_some();
            let push = !(has_last && near_last) || self.preferred.is_some();
            let offset = write_index as u64;
            if self.first_key.is_none() {
                self.first_key = Some(offset);
            }
            self.last_key = Some(offset);
            index.record_written_key(time_bits, packet.stream_index, write_index, push);
        }
    }
}

/// Where a seek of the writer goes.
pub enum WriterSeek {
    /// The segment being written holds the target: reading resumes at this
    /// keyframe.
    Current(SeekPoint),
    /// The earlier segment of this index holds it, at this keyframe: it
    /// becomes the one being written.
    Other(usize, SeekPoint),
    /// None holds it: a new segment starts and the source seeks.
    Fresh,
}

/// Whether a segment can be sought in by the writer: one whose range holds
/// the target has a keyframe (the writer takes one without checking).
pub open spec fn seekable(s: SegmentState, target: u64) -> bool {
    covers(s, target) ==> s.table.len() > 0
}

/// Chooses where a seek of the writer to `target` goes: the segment being
/// written if it holds the target, else the first earlier segment that does,
/// else a fresh segment. The keyframe is the one `SegmentView::seek` finds.
pub fn choose_writer_seek(current: &SegmentView, others: &Vec<SegmentView>, target: u64) -> (w: WriterSeek)
    requires
        seekable(current@, target),
        forall|i: int| 0 <= i < others.len() ==> seekable(#[trigger] others@[i]@, target),
    ensures
        covers(current@, target) ==> w == WriterSeek::Current(seek_result(current@, target)->0),
        !covers(current@, target) ==> match w {
            WriterSeek::Other(i, p) => {
                &&& i < others.len()
                &&& covers(others@[i as int]@, target)
                &&& forall|j: int| 0 <= j < i ==> !covers(#[trigger] others@[j]@, target)
                &&& seek_result(others@[i as int]@, target) == Some(p)
            },
            WriterSeek::Fresh => forall|j: int| 0 <= j < others.len() ==> !covers(#[trigger] others@[j]@, target),
            WriterSeek::Current(_) => false,
        },
        w matches WriterSeek::Current(p) ==> le(current@.begin, target) && le(target, current@.end)
            && current@.table.contains(p),
        w matches WriterSeek::Other(i, p) ==> i < others.len() && le(others@[i as int]@.begin, target)
            && le(target, others@[i as int]@.end) && others@[i as int]@.table.contains(p),
{
    if current.contains(target) {
        proof {
            crate::segment_index::lemma_seek_found(current@, target);
        }
        if let Some(p) = current.seek(target) {
            proof {
                crate::segment_index::lemma_seek_stays_in_range(current@, target);
            }
            return WriterSeek::Current(p);
        }
    }
    let mut i: usize = 0;
    while i < others.len()
        invariant
            i <= others.len(),
            !covers(current@, target),
            forall|j: int| 0 <= j < i ==> !covers(#[trigger] others@[j]@, target),
            forall|j: int| 0 <= j < others.len() ==> seekable(#[trigger] others@[j]@, target),
        decreases others.len() - i,
    {
        let found = others[i].contains(target);
        if found {
            proof {
                crate::segment_index::lemma_seek_found(others@[i as int]@, target);
            }
            let p = others[i].seek(target);
            match p {
                Some(point) => {
                    proof {
                        crate::segment_index::lemma_seek_stays_in_range(others@[i as int]@, target);
                    }
                    return WriterSeek::Other(i, point);
                },
                None => {},
            }
        }
        i = i + 1;
    }
    WriterSeek::Fresh
}

/// Index of the first earlier segment the one being written runs into
/// (`SegmentView::overlaps_with`), if any.
pub fn find_overlap(current: &SegmentView, others: &Vec<SegmentView>) -> (r: Option<usize>)
    ensures
        match r {
            Some(i) => {
                &&& i < others.len()
                &&& lt(others@[i as int]@.begin, current@.end) && lt(current@.begin, others@[i as int]@.begin)
                &&& forall|j: int| 0 <= j < i ==> !(lt(#[trigger] others@[j]@.begin, current@.end) && lt(current@.begin, others@[j]@.begin))
            },
            None => forall|j: int| 0 <= j < others.len() ==> !(lt(#[trigger] others@[j]@.begin, current@.end) && lt(current@.begin, others@[j]@.begin)),
        },
{
    let mut i: usize = 0;
    while i < others.len()
        invariant
            i <= others.len(),
            forall|j: int| 0 <= j < i ==> !(lt(#[trigger] others@[j]@.begin, current@.end) && lt(current@.begin, others@[j]@.begin)),
        decreases others.len() - i,
    {
        if current.overlaps_with(&others[i]) {
            return Some(i);
        }
        i = i + 1;
    }
    None
}

/// Whether the cache worker runs a pass of a cache: not when it has stopped
/// (a read error, a sealed segment or a source error) unless a check pass
/// was asked for.
pub fn worker_should_pass(has_error: bool, sealed: bool, source_error: bool, check_pass: bool) -> (b: bool)
    ensures
        b == (!(has_error || sealed || source_error) || check_pass),
{
    let error_or_ended = has_error || sealed || source_error;
    !(error_or_ended && !check_pass)
}

/// Where a merge of the segment being written into an earlier one stands.
#[derive(PartialEq, Eq, Structural, Clone, Copy, Debug)]
pub enum MergeStage {
    /// Reading this segment's last keyframe packet.
    ReadLast,
    /// Reading the earlier segment's packets from its first keyframe on,
    /// looking for that packet.
    Scan,
    /// The jump from this segment's last keyframe into the earlier segment
    /// is being written.
    JumpIn,
    /// Reading the earlier segment's last keyframe packet.
    ReadOtherLast,
    /// The jump from there back to the end of the file is being written.
    JumpBack,
    /// Over.
    Done,
}

/// What the writer does next while merging.
pub enum MergeAction {
    /// Read the packet line at this file offset and report it.
    Read(usize),
    /// Write, at the first file offset, a jump to the second.
    WriteJump(usize, u64),
    /// Stop. With a packet, the segments were joined: the packet (the
    /// earlier segment's last keyframe packet) is written again at the end
    /// of the file, the keyframe tables merge and the sizes add up.
    Finish(Option<Packet>),
}

/// What happened to the last action.
pub enum MergeEvent {
    /// A read found a packet line (the packet and the offset after it), or
    /// another line.
    Read(Option<(Packet, usize)>),
    /// A jump was written.
    Written,
}

/// Whether the action reads at `at`.
pub open spec fn reads(a: MergeAction, at: usize) -> bool {
    match a {
        MergeAction::Read(x) => x == at,
        _ => false,
    }
}

/// Whether the action writes, at `at`, a jump to `to`.
pub open spec fn writes_jump(a: MergeAction, at: usize, to: u64) -> bool {
    match a {
        MergeAction::WriteJump(x, y) => x == at && y == to,
        _ => false,
    }
}

/// Whether the action ends the merge with the packet `p` (none: not merged).
pub open spec fn finishes(a: MergeAction, p: Option<PacketView>) -> bool {
    match a {
        MergeAction::Finish(Some(q)) => p == Some(q@),
        MergeAction::Finish(None) => p is None,
        _ => false,
    }
}

/// What holds of every stage a merge reaches: a scan knows the packet it
/// looks for, and reading or jumping back from the earlier segment's last
/// keyframe knows that keyframe.
pub open spec fn merge_wf(m: MergeState) -> bool {
    &&& m.stage == MergeStage::Scan ==> m.last is Some
    &&& (m.stage == MergeStage::ReadOtherLast || m.stage == MergeStage::JumpBack)
        ==> m.other_last is Some
}

/// Plain value of a `TryMerge`.
pub struct MergeState {
    pub stage: MergeStage,
    pub last_pos: usize,
    pub last: Option<PacketView>,
    pub current: usize,
    pub other_first: Option<u64>,
    pub other_last: Option<u64>,
    pub write_index: u64,
}

/// A merge of the segment being written into an earlier segment it ran
/// into: the earlier segment's packets are scanned from its first keyframe
/// for this segment's last keyframe packet; where found, this segment jumps
/// there, and the earlier segment's last keyframe jumps back to the end of
/// the file.
pub struct TryMerge {
    stage: MergeStage,
    last_pos: usize,
    last: Option<Packet>,
    current: usize,
    other_first: Option<u64>,
    other_last: Option<u64>,
    write_index: u64,
}

impl TryMerge {
    pub closed spec fn state(&self) -> MergeState {
        MergeState {
            stage: self.stage,
            last_pos: self.last_pos,
            last: match self.last {
                Some(p) => Some(p@),
                None => None,
            },
            current: self.current,
            other_first: self.other_first,
            other_last: self.other_last,
            write_index: self.write_index,
        }
    }

    /// Starts a merge: `last_key` is this segment's last keyframe offset,
    /// `other_first` and `other_last` the earlier segment's, `write_index`
    /// the end of the file. Without a last keyframe there is nothing to do.
    pub fn start(last_key: Option<u64>, other_first: Option<u64>, other_last: Option<u64>, write_index: u64) -> (r: (TryMerge, MergeAction))
        ensures
            merge_wf(r.0.state()),
            match last_key {
                None => r.0.state().stage == MergeStage::Done && finishes(r.1, None),
                Some(k) => {
                    &&& r.0.state() == MergeState {
                        stage: MergeStage::ReadLast,
                        last_pos: k as usize,
                        last: None,
                        current: 0,
                        other_first,
                        other_last,
                        write_index,
                    }
                    &&& reads(r.1, k as usize)
                },
            },
    {
        match last_key {
            None => (
                TryMerge {
                    stage: MergeStage::Done,
                    last_pos: 0,
                    last: None,
                    current: 0,
                    other_first,
                    other_last,
                    write_index,
                },
                MergeAction::Finish(None),
            ),
            Some(k) => {
                let at = k as usize;
                (
                    TryMerge {
                        stage: MergeStage::ReadLast,
                        last_pos: at,
                        last: None,
                        current: 0,
                        other_first,
                        other_last,
                        write_index,
                    },
                    MergeAction::Read(at),
                )
            },
        }
    }

    /// Takes what happened to the last action and says what comes next.
    /// Reading this segment's last keyframe: no packet ends the merge;
    /// otherwise the scan starts at the earlier segment's first keyframe (no
    /// first keyframe ends it). Scanning: no packet ends it; the same packet
    /// (`Packet::eq`) found at the scan offset leads to the jump in, from this
    /// segment's last keyframe to that offset; another packet moves the scan
    /// on. After the jump in: without a last keyframe of the earlier segment
    /// the merge ends; otherwise that packet is read, and if it is one, the
    /// jump back to the end of the file is written at its offset, after which
    /// the merge ends with that packet.
    pub fn step(&mut self, event: MergeEvent) -> (a: MergeAction)
        requires
            old(self).state().stage != MergeStage::Done,
            merge_wf(old(self).state()),
        ensures
            merge_wf(final(self).state()),
            final(self).state().last_pos == old(self).state().last_pos,
            final(self).state().other_first == old(self).state().other_first,
            final(self).state().other_last == old(self).state().other_last,
            final(self).state().write_index == old(self).state().write_index,
            ({
                let o = old(self).state();
                let f = final(self).state();
                match (o.stage, event) {
                    (MergeStage::ReadLast, MergeEvent::Read(Some((p, _)))) => match o.other_first {
                        Some(first) => f.stage == MergeStage::Scan && f.last == Some(p@) && f.current
                            == first as usize && reads(a, first as usize),
                        None => f.stage == MergeStage::Done && finishes(a, None),
                    },
                    (MergeStage::Scan, MergeEvent::Read(Some((p, after)))) => if same_packet(p@, o.last->0) {
                        &&& f.stage == MergeStage::JumpIn
                        &&& f.current == o.current
                        &&& writes_jump(a, o.last_pos, o.current as u64)
                    } else {
                        &&& f.stage == MergeStage::Scan
                        &&& f.current == after
                        &&& f.last == o.last
                        &&& reads(a, after)
                    },
                    (MergeStage::JumpIn, MergeEvent::Written) => match o.other_last {
                        Some(l) => f.stage == MergeStage::ReadOtherLast && reads(a, l as usize),
                        None => f.stage == MergeStage::Done && finishes(a, None),
                    },
                    (MergeStage::ReadOtherLast, MergeEvent::Read(Some((p, _)))) => {
                        &&& f.stage == MergeStage::JumpBack
                        &&& writes_jump(a, o.other_last->0 as usize, o.write_index)
                        &&& f.last == Some(p@)
                    },
                    (MergeStage::JumpBack, MergeEvent::Written) => {
                        &&& f.stage == MergeStage::Done
                        &&& finishes(a, o.last)
                    },
                    _ => f.stage == MergeStage::Done && finishes(a, None),
                }
            }),
            ({
                let o = old(self).state();
                match (o.stage, event) {
                    (MergeStage::Scan, MergeEvent::Read(Some((p, _)))) => (a is WriteJump) == (p.pts
                        == o.last->0.pts && p.flags == o.last->0.flags && p.stream_index
                        == o.last->0.stream_index),
                    _ => true,
                }
            }),
    {
        let stage = self.stage;
        match (stage, event) {
            (MergeStage::ReadLast, MergeEvent::Read(Some((packet, _)))) => {
                self.last = Some(packet);
                match self.other_first {
                    Some(first) => {
                        self.current = first as usize;
                        self.stage = MergeStage::Scan;
                        MergeAction::Read(self.current)
                    },
                    None => {
                        self.stage = MergeStage::Done;
                        MergeAction::Finish(None)
                    },
                }
            },
            (MergeStage::Scan, MergeEvent::Read(Some((packet, after)))) => {
                let found = match &self.last {
                    Some(last) => packet == *last,
                    None => false,
                };
                if found {
                    self.stage = MergeStage::JumpIn;
                    MergeAction::WriteJump(self.last_pos, self.current as u64)
                } else {
                    self.current = after;
                    MergeAction::Read(after)
                }
            },
            (MergeStage::JumpIn, MergeEvent::Written) => match self.other_last {
                Some(l) => {
                    self.stage = MergeStage::ReadOtherLast;
                    MergeAction::Read(l as usize)
                },
                None => {
                    self.stage = MergeStage::Done;
                    MergeAction::Finish(None)
                },
            },
            (MergeStage::ReadOtherLast, MergeEvent::Read(Some((packet, _)))) => {
                self.last = Some(packet);
                self.stage = MergeStage::JumpBack;
                let at = match self.other_last {
                    Some(l) => l as usize,
                    None => 0,
                };
                MergeAction::WriteJump(at, self.write_index)
            },
            (MergeStage::JumpBack, MergeEvent::Written) => {
                self.stage = MergeStage::Done;
                let mut taken: Option<Packet> = None;
                std::mem::swap(&mut taken, &mut self.last);
                MergeAction::Finish(taken)
            },
            _ => {
                self.stage = MergeStage::Done;
                MergeAction::Finish(None)
            },
        }
    }
}

} // verus!
