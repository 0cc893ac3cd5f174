//! The decisions of a reader of the packet cache: where in the file it
//! reads, how it follows the lines it meets, where a seek sends it, and how
//! much is cached ahead of it. The caller reads the records and hands over
//! the decoded lines.
use crate::float_bits::{is_nan, le};
use crate::packet::{Packet, PacketView};
use crate::segment::{SegmentLine, SegmentLineView};
use crate::segment_index::{has_range, lemma_seek_stays_in_range, seek_result, views, SeekPoint, SegmentState, SegmentView};
use vstd::prelude::*;

verus! {

/// Where a seek of the reader landed.
pub enum SeekOutcome {
    /// In the segment being read, at this file offset.
    InCurrent(usize),
    /// In the segment of this index of the list, at this file offset.
    InOther(usize, usize),
    /// Nowhere yet: the reader waits for the writer to start a segment there.
    AwaitNew,
    /// Nowhere, and no writer will make it.
    Missed,
}

/// What a line means to a reader.
pub enum ReadOutcome {
    /// Read on (at the reader's read index).
    Continue,
    /// A packet to hand out.
    Packet(Packet),
    /// Nothing more to read here.
    Eof,
}

/// How much is cached ahead of the reader.
pub enum CachedSpan {
    /// Nothing (no known range, or waiting for a new segment).
    Nothing,
    /// All of it: the reader has not read a timed packet since the last seek.
    Unbounded,
    /// From the last packet time read to the segment's end (both `f64` bits:
    /// end first).
    Between(u64, u64),
}

/// Plain value of a `CacheReader`.
pub struct ReaderState {
    pub read_index: usize,
    pub serial: u32,
    pub current_pts: Option<u64>,
    pub await_new: bool,
    pub managed: bool,
}

/// A reader's position and seek state. `managed` readers follow a cache
/// being written, whose writer is told of seeks; the others read a finished
/// cache file.
pub struct CacheReader {
    read_index: usize,
    serial: u32,
    current_pts: Option<u64>,
    await_new: bool,
    managed: bool,
}

/// Index of the first segment where a seek to `target` lands, if any.
pub open spec fn first_hit(vs: Seq<SegmentState>, target: u64) -> Option<int>
    decreases vs.len(),
{
    if vs.len() == 0 {
        None
    } else {
        match first_hit(vs.drop_last(), target) {
            Some(i) => Some(i),
            None => if seek_result(vs.last(), target) is Some {
                Some(vs.len() - 1)
            } else {
                None
            },
        }
    }
}

/// `first_hit` names the first segment where the seek lands, and none when
/// it lands in none.
pub proof fn lemma_first_hit(vs: Seq<SegmentState>, target: u64)
    ensures
        first_hit(vs, target) matches Some(i) ==> 0 <= i < vs.len() && seek_result(vs[i], target) is Some
            && forall|j: int| 0 <= j < i ==> seek_result(#[trigger] vs[j], target) is None,
        first_hit(vs, target) is None ==> forall|j: int|
            0 <= j < vs.len() ==> seek_result(#[trigger] vs[j], target) is None,
    decreases vs.len(),
{
    if vs.len() > 0 {
        let d = vs.drop_last();
        lemma_first_hit(d, target);
        match first_hit(d, target) {
            Some(i) => {
                assert(d[i] == vs[i]);
                assert forall|j: int| 0 <= j < i implies seek_result(#[trigger] vs[j], target) is None by {
                    assert(d[j] == vs[j]);
                }
            },
            None => {
                assert forall|j: int| 0 <= j < d.len() implies seek_result(#[trigger] vs[j], target) is None by {
                    assert(d[j] == vs[j]);
                }
                assert(vs.last() == vs[vs.len() - 1]);
            },
        }
    }
}

impl CacheReader {
    pub closed spec fn state(&self) -> ReaderState {
        ReaderState {
            read_index: self.read_index,
            serial: self.serial,
            current_pts: self.current_pts,
            await_new: self.await_new,
            managed: self.managed,
        }
    }

    /// A reader at the start of the file, serial 0, no packet read.
    pub fn new(managed: bool) -> (r: CacheReader)
        ensures
            r.state() == (ReaderState {
                read_index: 0,
                serial: 0,
                current_pts: None,
                await_new: false,
                managed,
            }),
    {
        CacheReader { read_index: 0, serial: 0, current_pts: None, await_new: false, managed }
    }

    /// File offset of the next record to read.
    pub fn read_index(&self) -> (i: usize)
        ensures
            i == self.state().read_index,
    {
        self.read_index
    }

    /// Seek generation: packets handed out carry it.
    pub fn serial(&self) -> (s: u32)
        ensures
            s == self.state().serial,
    {
        self.serial
    }

    /// Whether the reader follows a cache being written.
    pub fn is_managed(&self) -> (b: bool)
        ensures
            b == self.state().managed,
    {
        self.managed
    }

    /// Whether the reader waits for a new segment.
    pub fn awaits_new(&self) -> (b: bool)
        ensures
            b == self.state().await_new,
    {
        self.await_new
    }

    /// Whether the read index has reached `file_len`, the end of what was
    /// written.
    pub fn at_end(&self, file_len: usize) -> (b: bool)
        ensures
            b == (self.state().read_index >= file_len),
    {
        self.read_index >= file_len
    }

    /// A new segment was started at `offset`: a reader waiting for one reads
    /// on from there.
    pub fn on_new_segment(&mut self, offset: usize)
        requires
            old(self).state().await_new,
        ensures
            final(self).state() == (ReaderState {
                read_index: offset,
                await_new: false,
                ..old(self).state()
            }),
    {
        self.read_index = offset;
        self.await_new = false;
    }

    /// How much is cached ahead in `current`, the segment being read (for a
    /// reader not waiting for a new segment): nothing without a known range,
    /// all of it before a timed packet was read, else from that packet's time
    /// to the segment's end.
    pub fn cached_span(&self, current: &SegmentView) -> (c: CachedSpan)
        ensures
            c == (if !has_range(current@) {
                CachedSpan::Nothing
            } else {
                match self.state().current_pts {
                    None => CachedSpan::Unbounded,
                    Some(p) => CachedSpan::Between(current@.end, p),
                }
            }),
    {
        let (begin, end) = current.range();
        if is_nan(begin) || is_nan(end) {
            return CachedSpan::Nothing;
        }
        match self.current_pts {
            None => CachedSpan::Unbounded,
            Some(p) => CachedSpan::Between(end, p),
        }
    }

    /// Seeks to `target` (`f64` bits): a new serial begins and no packet time
    /// is known. The segment being read (`current`) is tried first, then the
    /// listed segments in order; where the seek lands, reading goes on at
    /// the keyframe's offset. A managed reader that finds no segment waits
    /// for a new one. The caller tells the writer of the seek unless it
    /// landed in `current` or `Missed`.
    pub fn seek(&mut self, current: &SegmentView, segments: &Vec<SegmentView>, target: u64) -> (o: SeekOutcome)
        requires
            old(self).state().serial < u32::MAX,
        ensures
            final(self).state().serial == old(self).state().serial + 1,
            final(self).state().current_pts is None,
            final(self).state().managed == old(self).state().managed,
            ({
                let o_st = old(self).state();
                let f = final(self).state();
                match seek_result(current@, target) {
                    Some(p) => o == SeekOutcome::InCurrent(p.offset) && f.read_index == p.offset
                        && !f.await_new,
                    None => match first_hit(views(segments@), target) {
                        Some(i) => {
                            &&& o == SeekOutcome::InOther(
                                i as usize,
                                seek_result(views(segments@)[i], target)->0.offset,
                            )
                            &&& f.read_index == seek_result(views(segments@)[i], target)->0.offset
                            &&& !f.await_new
                        },
                        None => if o_st.managed {
                            o == SeekOutcome::AwaitNew && f.await_new && f.read_index
                                == o_st.read_index
                        } else {
                            o == SeekOutcome::Missed && !f.await_new && f.read_index
                                == o_st.read_index
                        },
                    },
                }
            }),
            o matches SeekOutcome::InCurrent(off) ==> le(current@.begin, target) && le(target, current@.end)
                && exists|k: int| 0 <= k < current@.table.len() && (#[trigger] current@.table[k]).offset == off,
            o matches SeekOutcome::InOther(i, off) ==> {
                &&& i < segments@.len()
                &&& le(segments@[i as int]@.begin, target) && le(target, segments@[i as int]@.end)
                &&& !(le(current@.begin, target) && le(target, current@.end) && current@.table.len() > 0)
            },
    {
        self.serial = self.serial + 1;
        self.current_pts = None;
        self.await_new = false;
        proof {
            lemma_seek_stays_in_range(current@, target);
        }
        if let Some(point) = current.seek(target) {
            self.read_index = point.offset;
            return SeekOutcome::InCurrent(point.offset);
        }
        let ghost vs = views(segments@);
        let mut i: usize = 0;
        while i < segments.len()
            invariant
                i <= segments.len(),
                vs == views(segments@),
                old(self).state().serial < u32::MAX,
                self.state() == (ReaderState {
                    serial: (old(self).state().serial + 1) as u32,
                    current_pts: None,
                    await_new: false,
                    ..old(self).state()
                }),
                seek_result(current@, target) is None,
                first_hit(vs.take(i as int), target) is None,
            decreases segments.len() - i,
        {
            let r = segments[i].seek(target);
            assert(vs[i as int] == segments@[i as int]@);
            assert(vs.take(i + 1).drop_last() =~= vs.take(i as int));
            if let Some(point) = r {
                proof {
                    assert(first_hit(vs.take(i + 1), target) == Some(i as int));
                    lemma_first_hit_prefix(vs, target, i as int);
                    lemma_seek_stays_in_range(vs[i as int], target);
                    if le(current@.begin, target) && le(target, current@.end) && current@.table.len() > 0 {
                        crate::segment_index::lemma_seek_found(current@, target);
                    }
                }
                self.read_index = point.offset;
                return SeekOutcome::InOther(i, point.offset);
            }
            i = i + 1;
        }
        assert(vs.take(i as int) =~= vs);
        if self.managed {
            self.await_new = true;
            SeekOutcome::AwaitNew
        } else {
            SeekOutcome::Missed
        }
    }

    /// Takes the line read at the read index (the next record starts at
    /// `after`); `time_bits` is a packet line's time in seconds (timestamp
    /// times its stream's time base), or `None` when it has no timestamp. A
    /// jump to an offset goes there; an empty jump or a seal ends the read; a
    /// stream description is passed over; a packet is handed out with the
    /// reader's serial, its time becoming the last time read.
    pub fn on_line(&mut self, line: SegmentLine, after: usize, time_bits: Option<u64>) -> (o: ReadOutcome)
        ensures
            ({
                let o_st = old(self).state();
                let f = final(self).state();
                match line@ {
                    SegmentLineView::Jump(Some(j)) => o is Continue && f == ReaderState {
                        read_index: j as usize,
                        ..o_st
                    },
                    SegmentLineView::Jump(None) => o is Eof && f == ReaderState {
                        read_index: after,
                        ..o_st
                    },
                    SegmentLineView::Seal => o is Eof && f == ReaderState {
                        read_index: after,
                        ..o_st
                    },
                    SegmentLineView::Stream(_) => o is Continue && f == ReaderState {
                        read_index: after,
                        ..o_st
                    },
                    SegmentLineView::Packet(p) => {
                        &&& f == ReaderState {
                            read_index: after,
                            current_pts: match time_bits {
                                Some(t) => Some(t),
                                None => o_st.current_pts,
                            },
                            ..o_st
                        }
                        &&& o matches ReadOutcome::Packet(q) && q@ == PacketView {
                            serial: o_st.serial,
                            ..p
                        }
                    },
                }
            }),
    {
        self.read_index = after;
        match line {
            SegmentLine::Jump(Some(j)) => {
                self.read_index = j as usize;
                ReadOutcome::Continue
            },
            SegmentLine::Jump(None) => ReadOutcome::Eof,
            SegmentLine::Seal => ReadOutcome::Eof,
            SegmentLine::Stream(_) => ReadOutcome::Continue,
            SegmentLine::Packet(packet) => {
                let mut packet = packet;
                if time_bits.is_some() {
                    self.current_pts = time_bits;
                }
                packet.serial = self.serial;
                ReadOutcome::Packet(packet)
            },
        }
    }
}

proof fn lemma_first_hit_prefix(vs: Seq<SegmentState>, target: u64, i: int)
    requires
        0 <= i < vs.len(),
        first_hit(vs.take(i + 1), target) == Some(i),
    ensures
        first_hit(vs, target) == Some(i),
    decreases vs.len(),
{
    if vs.len() > i + 1 {
        let d = vs.drop_last();
        assert(d.take(i + 1) =~= vs.take(i + 1));
        lemma_first_hit_prefix(d, target, i);
    } else {
        assert(vs.take(i + 1) =~= vs);
    }
}

} // verus!
