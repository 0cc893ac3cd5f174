//! Reading the index of a cache file back: the decisions of the reader that
//! walks the file's lines, following jumps to other offsets and returning
//! after them, gathering the stream descriptions, and building one keyframe
//! index per segment. The caller reads the records (at the offsets this
//! reader names) and hands over each decoded line.
use crate::errors::CacheError;
use crate::float_bits::is_nan;
use crate::packet::{NO_PTS, PACKET_FLAG_KEY};
use crate::segment::{SegmentLineRead, SegmentLineReadView};
use crate::segment_index::{
    by_begin, empty_segment, has_range, insert_by_begin, views, with_loaded_key, SegmentState,
    SegmentView,
};
use crate::sorting::{lemma_sort_by_key, sort_by_key, sorted_by};
use crate::stream::{Stream, StreamType, StreamView};
use vstd::prelude::*;

verus! {

/// What the reader does next.
pub enum LoadStep {
    /// Read the record at this file offset.
    ReadAt(usize),
    /// Stop reading.
    Finish,
}

/// Plain value of a `CacheLoader`.
pub struct LoadState {
    pub streams: Seq<StreamView>,
    pub segments: Seq<SegmentState>,
    pub current: SegmentState,
    pub stack: Seq<usize>,
    pub preferred: Option<i32>,
}

/// The state of a cache file being read back: streams seen, finished
/// segments, the segment being read, the offsets to return to after jumps,
/// and the stream whose keyframes are indexed (the last video stream seen).
pub struct CacheLoader {
    streams: Vec<Stream>,
    segments: Vec<SegmentView>,
    current: SegmentView,
    stack: Vec<usize>,
    preferred: Option<i32>,
}

/// The plain values of a list of streams.
pub open spec fn stream_views(v: Seq<Stream>) -> Seq<StreamView> {
    v.map_values(|s: Stream| s@)
}

/// Whether a packet line is indexed as a keyframe: it belongs to the
/// preferred stream, has a timestamp and carries the key flag. With no video
/// stream seen yet nothing is indexed: the spacing test that would then
/// apply needs an earlier keyframe of the segment, and there is none.
pub open spec fn indexed_key(st: LoadState, pts: i64, stream_index: i32, flags: i32) -> bool {
    &&& st.preferred == Some(stream_index)
    &&& pts != NO_PTS
    &&& (flags & PACKET_FLAG_KEY) > 0
}

/// The stack after a segment ends, and where reading goes on: back after
/// the last jump taken, or nowhere.
pub open spec fn returned(old_stack: Seq<usize>, new_stack: Seq<usize>, step: LoadStep) -> bool {
    if old_stack.len() == 0 {
        new_stack == old_stack && step == LoadStep::Finish
    } else {
        new_stack == old_stack.drop_last() && step == LoadStep::ReadAt(old_stack.last())
    }
}

/// Whether a segment has a known range.
pub open spec fn ranged() -> spec_fn(SegmentState) -> bool {
    |s: SegmentState| has_range(s)
}

/// The segments a finished read yields: those with a known range, in
/// ascending order of their begin (stable).
pub open spec fn loaded_segments(st: LoadState) -> Seq<SegmentState> {
    sort_by_key(st.segments.push(st.current).filter(ranged()), by_begin())
}

/// The segments of a finished read are in ascending order of their begin,
/// and each has a known range.
pub proof fn lemma_loaded_segments(st: LoadState)
    ensures
        sorted_by(loaded_segments(st), by_begin()),
        forall|i: int|
            0 <= i < loaded_segments(st).len() ==> has_range(#[trigger] loaded_segments(st)[i]),
{
    broadcast use vstd::seq_lib::group_filter_ensures;
    broadcast use vstd::seq_lib::group_to_multiset_ensures;

    let f = st.segments.push(st.current).filter(ranged());
    let r = loaded_segments(st);
    lemma_sort_by_key(f, by_begin());
    assert forall|i: int| 0 <= i < r.len() implies has_range(#[trigger] r[i]) by {
        assert(r.contains(r[i]));
        assert(r.to_multiset().count(r[i]) > 0);
        assert(f.contains(r[i]));
        let k = choose|k: int| 0 <= k < f.len() && f[k] == r[i];
        assert(ranged()(f[k]));
    }
}

impl CacheLoader {
    pub closed spec fn state(&self) -> LoadState {
        LoadState {
            streams: stream_views(self.streams@),
            segments: views(self.segments@),
            current: self.current@,
            stack: self.stack@,
            preferred: self.preferred,
        }
    }

    /// Holds of every reachable state: while no video stream is known, the
    /// segment being read has no keyframes.
    pub open spec fn wf(&self) -> bool {
        self.state().preferred is None ==> self.state().current.table.len() == 0
    }

    /// A reader at the start of a file.
    pub fn new() -> (l: CacheLoader)
        ensures
            l.wf(),
            l.state() == (LoadState {
                streams: Seq::empty(),
                segments: Seq::empty(),
                current: empty_segment(),
                stack: Seq::empty(),
                preferred: None,
            }),
    {
        let l = CacheLoader {
            streams: Vec::new(),
            segments: Vec::new(),
            current: SegmentView::empty(),
            stack: Vec::new(),
            preferred: None,
        };
        assert(l.state().streams =~= Seq::<StreamView>::empty());
        assert(l.state().segments =~= Seq::<SegmentState>::empty());
        l
    }

    /// The streams seen so far, in file order.
    pub fn streams(&self) -> (s: &Vec<Stream>)
        ensures
            stream_views(s@) == self.state().streams,
    {
        &self.streams
    }

    /// Ends the current segment (sealed or not) and returns after the last
    /// jump, if any.
    fn close_segment(&mut self, sealed: bool) -> (step: LoadStep)
        requires
            old(self).wf(),
        ensures
            final(self).wf(),
            final(self).state().segments == old(self).state().segments.push(
                if sealed {
                    SegmentState { sealed: true, ..old(self).state().current }
                } else {
                    old(self).state().current
                },
            ),
            final(self).state().current == empty_segment(),
            final(self).state().streams == old(self).state().streams,
            final(self).state().preferred == old(self).state().preferred,
            returned(old(self).state().stack, final(self).state().stack, step),
    {
        let mut done = SegmentView::empty();
        std::mem::swap(&mut done, &mut self.current);
        if sealed {
            done.set_sealed();
        }
        let ghost segs = self.segments@;
        self.segments.push(done);
        assert(views(self.segments@) =~= views(segs).push(done@));
        match self.stack.pop() {
            Some(offset) => LoadStep::ReadAt(offset),
            None => LoadStep::Finish,
        }
    }

    /// Takes the line read from the record at `before` (the next record
    /// starts at `after`). For a packet line, `time_bits` is its timestamp
    /// in seconds (timestamp times its stream's time base, as `f64` bits).
    /// A seal or an empty jump ends the segment; a jump to an offset is
    /// followed, remembering where to come back; a stream description is
    /// kept (a video stream becomes the indexed one); an indexed keyframe
    /// joins the current segment's index at `before`.
    pub fn step(&mut self, before: usize, after: usize, line: SegmentLineRead, time_bits: u64) -> (step: LoadStep)
        requires
            old(self).wf(),
            line matches SegmentLineRead::Packet(_, si, _) ==> 0 <= si < old(self).state().streams.len(),
        ensures
            final(self).wf(),
            ({
                let o = old(self).state();
                let f = final(self).state();
                match line@ {
                    SegmentLineReadView::Seal => {
                        &&& f.segments == o.segments.push(SegmentState { sealed: true, ..o.current })
                        &&& f.current == empty_segment()
                        &&& f.streams == o.streams
                        &&& f.preferred == o.preferred
                        &&& returned(o.stack, f.stack, step)
                    },
                    SegmentLineReadView::Jump(None) => {
                        &&& f.segments == o.segments.push(o.current)
                        &&& f.current == empty_segment()
                        &&& f.streams == o.streams
                        &&& f.preferred == o.preferred
                        &&& returned(o.stack, f.stack, step)
                    },
                    SegmentLineReadView::Jump(Some(target)) => {
                        &&& f == LoadState { stack: o.stack.push(after), ..o }
                        &&& step == LoadStep::ReadAt(target as usize)
                    },
                    SegmentLineReadView::Stream(st) => {
                        &&& f == LoadState {
                            streams: o.streams.push(st),
                            preferred: if st.stream_type == StreamType::Video {
                                Some(st.index)
                            } else {
                                o.preferred
                            },
                            ..o
                        }
                        &&& step == LoadStep::ReadAt(after)
                    },
                    SegmentLineReadView::Packet(pts, si, flags) => {
                        &&& f == if indexed_key(o, pts, si, flags) {
                            LoadState { current: with_loaded_key(o.current, time_bits, si, before), ..o }
                        } else {
                            o
                        }
                        &&& step == LoadStep::ReadAt(after)
                    },
                }
            }),
    {
        match line {
            SegmentLineRead::Seal => self.close_segment(true),
            SegmentLineRead::Jump(None) => self.close_segment(false),
            SegmentLineRead::Jump(Some(target)) => {
                self.stack.push(after);
                LoadStep::ReadAt(target as usize)
            },
            SegmentLineRead::Stream(stream) => {
                if stream.stream_type == StreamType::Video {
                    self.preferred = Some(stream.index);
                }
                let ghost streams = self.streams@;
                let ghost st = stream@;
                self.streams.push(stream);
                assert(stream_views(self.streams@) =~= stream_views(streams).push(st));
                LoadStep::ReadAt(after)
            },
            SegmentLineRead::Packet(pts, si, flags) => {
                let chosen = match self.preferred {
                    Some(p) => p == si,
                    None => true,
                };
                if chosen && pts != NO_PTS && (flags & PACKET_FLAG_KEY) > 0 {
                    // With no preferred stream the segment has no keyframe yet
                    // (`wf`), so no spacing from an earlier one can be met.
                    let spaced = self.preferred.is_some();
                    if spaced {
                        self.current.record_loaded_key(time_bits, si, before);
                    }
                }
                LoadStep::ReadAt(after)
            },
        }
    }

    /// Ends the read: the segment being read joins the others, those with no
    /// known range are dropped, and the rest are sorted by their begin.
    /// Fails with `Eof` when none is left; otherwise yields the segments
    /// (the first is where playback starts) and the streams.
    pub fn finish(self) -> (r: Result<(Vec<SegmentView>, Vec<Stream>), CacheError>)
        ensures
            match r {
                Ok((segments, streams)) => {
                    &&& views(segments@) == loaded_segments(self.state())
                    &&& segments@.len() > 0
                    &&& stream_views(streams@) == self.state().streams
                },
                Err(e) => loaded_segments(self.state()).len() == 0 && e is Eof,
            },
    {
        let ghost st = self.state();
        let CacheLoader { streams, segments, current, stack, preferred } = self;
        let mut all = segments;
        let ghost segs0 = all@;
        all.push(current);
        let ghost whole = views(all@);
        assert(whole =~= st.segments.push(st.current));
        let mut kept: Vec<SegmentView> = Vec::new();
        let ghost mut i: int = 0;
        while all.len() > 0
            invariant
                0 <= i <= whole.len(),
                views(all@) == whole.skip(i),
                views(kept@) == whole.take(i).filter(ranged()),
            decreases all.len(),
        {
            let ghost rest = all@;
            assert(views(rest).len() == rest.len());
            assert(i < whole.len());
            let s = all.remove(0);
            assert(s@ == whole[i]) by {
                assert(views(rest)[0] == rest[0]@);
                assert(whole.skip(i)[0] == whole[i]);
            }
            assert(views(all@) =~= whole.skip(i + 1)) by {
                assert(all@ =~= rest.remove(0));
                assert forall|k: int| 0 <= k < views(all@).len() implies views(all@)[k] == whole.skip(i + 1)[k] by {
                    assert(views(all@)[k] == rest[k + 1]@);
                    assert(views(rest)[k + 1] == rest[k + 1]@);
                    assert(whole.skip(i)[k + 1] == whole[i + 1 + k]);
                }
            }
            assert(whole.take(i + 1).drop_last() =~= whole.take(i));
            assert(whole.take(i + 1).last() == whole[i]);
            assert(whole.take(i + 1).filter(ranged()) == if ranged()(whole[i]) {
                whole.take(i).filter(ranged()).push(whole[i])
            } else {
                whole.take(i).filter(ranged())
            }) by {
                reveal(Seq::filter);
            }
            if !is_nan(s.range().0) && !is_nan(s.range().1) {
                let ghost k0 = kept@;
                kept.push(s);
                assert(views(kept@) =~= views(k0).push(s@));
            }
            proof {
                i = i + 1;
            }
        }
        assert(whole.take(i) =~= whole);
        let ghost filtered = views(kept@);
        let mut sorted: Vec<SegmentView> = Vec::new();
        let ghost mut j: int = 0;
        while kept.len() > 0
            invariant
                0 <= j <= filtered.len(),
                views(kept@) == filtered.skip(j),
                views(sorted@) == sort_by_key(filtered.take(j), by_begin()),
            decreases kept.len(),
        {
            let ghost rest = kept@;
            assert(views(rest).len() == rest.len());
            assert(j < filtered.len());
            let s = kept.remove(0);
            assert(s@ == filtered[j]) by {
                assert(views(rest)[0] == rest[0]@);
                assert(filtered.skip(j)[0] == filtered[j]);
            }
            assert(views(kept@) =~= filtered.skip(j + 1)) by {
                assert(kept@ =~= rest.remove(0));
                assert forall|k: int| 0 <= k < views(kept@).len() implies views(kept@)[k] == filtered.skip(j + 1)[k] by {
                    assert(views(kept@)[k] == rest[k + 1]@);
                    assert(views(rest)[k + 1] == rest[k + 1]@);
                    assert(filtered.skip(j)[k + 1] == filtered[j + 1 + k]);
                }
            }
            assert(filtered.take(j + 1).drop_last() =~= filtered.take(j));
            insert_by_begin(&mut sorted, s);
            proof {
                j = j + 1;
            }
        }
        assert(filtered.take(j) =~= filtered);
        if sorted.len() == 0 {
            Err(CacheError::Eof)
        } else {
            Ok((sorted, streams))
        }
    }
}

} // verus!
