//! Keyframe index of a cached segment: the time range the segment covers,
//! whether it is complete (sealed), how many bytes it holds, and the table of
//! keyframes a reader can start from. Times are `f64` seconds held as their
//! bit patterns.
use crate::sorting::{insert_by, lemma_insert_at, lemma_sort_by_key, sort_by_key};
use crate::float_bits::{is_nan, le, less, less_eq, lt, nan, total_less, total_rank, NAN_BITS};
use vstd::prelude::*;

verus! {

/// A keyframe a reader can start from: its time (bits of an `f64` in
/// seconds), its stream and the file offset of its record.
#[derive(Clone, Copy, PartialEq, Eq, Structural, Debug)]
pub struct SeekPoint {
    pub pts_bits: u64,
    pub stream: i32,
    pub offset: usize,
}

/// Position of a point's time in the total order of `f64::total_cmp`.
pub open spec fn point_rank(p: SeekPoint) -> int {
    total_rank(p.pts_bits)
}

/// The time key of a point.
pub open spec fn by_time() -> spec_fn(SeekPoint) -> int {
    |p: SeekPoint| point_rank(p)
}

/// Whether the points are in ascending time order.
pub open spec fn table_sorted(t: Seq<SeekPoint>) -> bool {
    forall|i: int, j: int| 0 <= i <= j < t.len() ==> point_rank(t[i]) <= point_rank(t[j])
}

/// Number of points strictly before `target` in the total order.
pub open spec fn count_below(t: Seq<SeekPoint>, target: u64) -> nat
    decreases t.len(),
{
    if t.len() == 0 {
        0
    } else {
        count_below(t.drop_last(), target) + if point_rank(t.last()) < total_rank(target) {
            1nat
        } else {
            0nat
        }
    }
}

/// The point a reader starts from for `target` in a sorted table: the last
/// point before the first one at or after the target, or the first point
/// when there is none before it.
pub open spec fn start_point(t: Seq<SeekPoint>, target: u64) -> Option<SeekPoint> {
    let r = count_below(t, target);
    if t.len() == 0 {
        None
    } else if r == 0 {
        Some(t[0])
    } else {
        Some(t[r - 1])
    }
}

/// Plain value of a segment's index.
pub struct SegmentState {
    pub begin: u64,
    pub end: u64,
    pub size: u64,
    pub sealed: bool,
    pub table: Seq<SeekPoint>,
}

/// A segment with no range yet, no bytes, unsealed and without keyframes.
pub open spec fn empty_segment() -> SegmentState {
    SegmentState {
        begin: NAN_BITS,
        end: NAN_BITS,
        size: 0,
        sealed: false,
        table: Seq::<SeekPoint>::empty(),
    }
}

/// `s` after a keyframe at `pts_bits` read back from a cache file: the range
/// starts at the first keyframe and ends at the latest time seen, and the
/// keyframe joins the table.
pub open spec fn with_loaded_key(s: SegmentState, pts_bits: u64, stream: i32, offset: usize) -> SegmentState {
    SegmentState {
        begin: if nan(s.begin) {
            pts_bits
        } else {
            s.begin
        },
        end: if nan(s.end) || lt(s.end, pts_bits) {
            pts_bits
        } else {
            s.end
        },
        table: s.table.push(SeekPoint { pts_bits, stream, offset }),
        ..s
    }
}

/// The begin key of a segment, in the total order of `f64::total_cmp`.
pub open spec fn by_begin() -> spec_fn(SegmentState) -> int {
    |s: SegmentState| total_rank(s.begin)
}

/// The plain values of a list of segments.
pub open spec fn views(v: Seq<SegmentView>) -> Seq<SegmentState> {
    v.map_values(|s: SegmentView| s@)
}

/// Whether the segment's known range holds the time `pts` (no bound may be
/// NaN).
pub open spec fn covers(s: SegmentState, pts: u64) -> bool {
    le(s.begin, pts) && le(pts, s.end)
}

/// Whether the segment has a known range (neither bound is NaN).
pub open spec fn has_range(s: SegmentState) -> bool {
    !nan(s.begin) && !nan(s.end)
}

proof fn lemma_lower_bound_is_count(t: Seq<SeekPoint>, target: u64, r: int)
    requires
        0 <= r <= t.len(),
        forall|i: int| 0 <= i < r ==> point_rank(t[i]) < total_rank(target),
        forall|i: int| r <= i < t.len() ==> total_rank(target) <= point_rank(t[i]),
    ensures
        r == count_below(t, target),
    decreases t.len(),
{
    if t.len() > 0 {
        let d = t.drop_last();
        if r == t.len() {
            lemma_lower_bound_is_count(d, target, r - 1);
        } else {
            lemma_lower_bound_is_count(d, target, r);
        }
    }
}

/// Where binary search between `lo` and `hi` ends for `target`: halve the
/// range, keeping the upper half when the middle point is before the target.
pub open spec fn search_index(t: Seq<SeekPoint>, target: u64, lo: int, hi: int) -> int
    decreases hi - lo,
{
    if lo >= hi {
        lo
    } else {
        let mid = lo + (hi - lo) / 2;
        if point_rank(t[mid]) < total_rank(target) {
            search_index(t, target, mid + 1, hi)
        } else {
            search_index(t, target, lo, mid)
        }
    }
}

proof fn lemma_search_sorted(t: Seq<SeekPoint>, target: u64, lo: int, hi: int)
    requires
        table_sorted(t),
        0 <= lo <= hi <= t.len(),
        forall|i: int| 0 <= i < lo ==> point_rank(#[trigger] t[i]) < total_rank(target),
        forall|i: int| hi <= i < t.len() ==> total_rank(target) <= point_rank(#[trigger] t[i]),
    ensures
        search_index(t, target, lo, hi) == count_below(t, target),
    decreases hi - lo,
{
    if lo >= hi {
        lemma_lower_bound_is_count(t, target, lo);
    } else {
        let mid = lo + (hi - lo) / 2;
        if point_rank(t[mid]) < total_rank(target) {
            assert forall|i: int| 0 <= i < mid + 1 implies point_rank(#[trigger] t[i]) < total_rank(
                target,
            ) by {
                assert(point_rank(t[i]) <= point_rank(t[mid]));
            }
            lemma_search_sorted(t, target, mid + 1, hi);
        } else {
            assert forall|i: int| mid <= i < t.len() implies total_rank(target) <= point_rank(
                #[trigger] t[i],
            ) by {
                assert(point_rank(t[mid]) <= point_rank(t[i]));
            }
            lemma_search_sorted(t, target, lo, mid);
        }
    }
}

proof fn lemma_search_bound(t: Seq<SeekPoint>, target: u64, lo: int, hi: int)
    requires
        0 <= lo <= hi <= t.len(),
    ensures
        lo <= search_index(t, target, lo, hi) <= hi,
    decreases hi - lo,
{
    if lo < hi {
        let mid = lo + (hi - lo) / 2;
        if point_rank(t[mid]) < total_rank(target) {
            lemma_search_bound(t, target, mid + 1, hi);
        } else {
            lemma_search_bound(t, target, lo, mid);
        }
    }
}

/// On a sorted table, binary search finds the number of points before the
/// target.
pub proof fn lemma_search_finds_count(t: Seq<SeekPoint>, target: u64)
    requires
        table_sorted(t),
    ensures
        search_index(t, target, 0, t.len() as int) == count_below(t, target),
{
    lemma_search_sorted(t, target, 0, t.len() as int);
}

/// Binary search for `target` over the table in the total order of
/// `f64::total_cmp`: on a sorted table, the index of the first point not
/// before the target.
pub fn lower_bound(t: &Vec<SeekPoint>, target: u64) -> (r: usize)
    ensures
        r == search_index(t@, target, 0, t.len() as int),
        r <= t.len(),
        table_sorted(t@) ==> r == count_below(t@, target),
{
    let mut lo: usize = 0;
    let mut hi: usize = t.len();
    while lo < hi
        invariant
            lo <= hi <= t.len(),
            search_index(t@, target, lo as int, hi as int) == search_index(t@, target, 0, t.len() as int),
        decreases hi - lo,
    {
        let mid = lo + (hi - lo) / 2;
        if total_less(t[mid].pts_bits, target) {
            lo = mid + 1;
        } else {
            hi = mid;
        }
    }
    proof {
        lemma_search_bound(t@, target, 0, t.len() as int);
        if table_sorted(t@) {
            lemma_search_finds_count(t@, target);
        }
    }
    lo
}

/// The point a seek to `target` lands on: none outside the range;
/// otherwise the point just before where binary search ends (the first
/// point when it ends at the start), if the table has it.
pub open spec fn seek_result(s: SegmentState, target: u64) -> Option<SeekPoint> {
    let r = search_index(s.table, target, 0, s.table.len() as int);
    let i = if r < 1 {
        0
    } else {
        r - 1
    };
    if !covers(s, target) || i >= s.table.len() {
        None
    } else {
        Some(s.table[i])
    }
}

/// A seek lands only inside the segment's range: a target before its begin
/// or after its end (or any target while a bound is unknown) gives no point;
/// a point found is one of the segment's keyframes.
pub proof fn lemma_seek_stays_in_range(s: SegmentState, target: u64)
    ensures
        seek_result(s, target) is Some ==> le(s.begin, target) && le(target, s.end),
        lt(target, s.begin) ==> seek_result(s, target) is None,
        lt(s.end, target) ==> seek_result(s, target) is None,
        seek_result(s, target) is Some ==> s.table.contains(seek_result(s, target)->0),
{
    if seek_result(s, target) is Some {
        let r = search_index(s.table, target, 0, s.table.len() as int);
        let i = if r < 1 {
            0
        } else {
            r - 1
        };
        assert(s.table[i] == seek_result(s, target)->0);
    }
}

/// On a sorted table, binary search splits it: the points before where it
/// ends are before the target, the others are not.
proof fn lemma_search_splits(t: Seq<SeekPoint>, target: u64, lo: int, hi: int)
    requires
        table_sorted(t),
        0 <= lo <= hi <= t.len(),
        forall|i: int| 0 <= i < lo ==> point_rank(#[trigger] t[i]) < total_rank(target),
        forall|i: int| hi <= i < t.len() ==> total_rank(target) <= point_rank(#[trigger] t[i]),
    ensures
        forall|i: int|
            0 <= i < search_index(t, target, lo, hi) ==> point_rank(#[trigger] t[i]) < total_rank(
                target,
            ),
        forall|i: int|
            search_index(t, target, lo, hi) <= i < t.len() ==> total_rank(target) <= point_rank(
                #[trigger] t[i],
            ),
    decreases hi - lo,
{
    if lo < hi {
        let mid = lo + (hi - lo) / 2;
        if point_rank(t[mid]) < total_rank(target) {
            assert forall|i: int| 0 <= i < mid + 1 implies point_rank(#[trigger] t[i]) < total_rank(
                target,
            ) by {
                assert(point_rank(t[i]) <= point_rank(t[mid]));
            }
            lemma_search_splits(t, target, mid + 1, hi);
        } else {
            assert forall|i: int| mid <= i < t.len() implies total_rank(target) <= point_rank(
                #[trigger] t[i],
            ) by {
                assert(point_rank(t[mid]) <= point_rank(t[i]));
            }
            lemma_search_splits(t, target, lo, mid);
        }
    }
}

/// On a segment with a sorted table of keyframes, a seek inside its range
/// lands on the latest keyframe before the target (no keyframe before the
/// target is later than it), or, when every keyframe is at or after the
/// target, on the first keyframe.
pub proof fn lemma_seek_lands_before_target(s: SegmentState, target: u64)
    requires
        table_sorted(s.table),
        covers(s, target),
        s.table.len() > 0,
    ensures
        seek_result(s, target) is Some,
        ({
            let p = seek_result(s, target)->0;
            ||| point_rank(p) < total_rank(target) && forall|k: int|
                0 <= k < s.table.len() && point_rank(#[trigger] s.table[k]) < total_rank(target)
                    ==> point_rank(s.table[k]) <= point_rank(p)
            ||| p == s.table[0] && forall|k: int|
                0 <= k < s.table.len() ==> total_rank(target) <= point_rank(#[trigger] s.table[k])
        }),
{
    let t = s.table;
    lemma_search_splits(t, target, 0, t.len() as int);
    lemma_search_bound(t, target, 0, t.len() as int);
    let r = search_index(t, target, 0, t.len() as int);
    if r >= 1 {
        let p = t[r - 1];
        assert(seek_result(s, target) == Some(p));
        assert forall|k: int|
            0 <= k < t.len() && point_rank(#[trigger] t[k]) < total_rank(target) implies point_rank(
            t[k],
        ) <= point_rank(p) by {
            if k >= r {
                assert(total_rank(target) <= point_rank(t[k]));
            }
        }
    } else {
        assert(seek_result(s, target) == Some(t[0]));
    }
}

/// A seek inside the range of a segment with keyframes lands on one of them.
pub proof fn lemma_seek_found(s: SegmentState, target: u64)
    requires
        covers(s, target),
        s.table.len() > 0,
    ensures
        seek_result(s, target) is Some,
        s.table.contains(seek_result(s, target)->0),
{
    lemma_search_bound(s.table, target, 0, s.table.len() as int);
    let r = search_index(s.table, target, 0, s.table.len() as int);
    let i = if r < 1 {
        0
    } else {
        r - 1
    };
    assert(s.table[i] == seek_result(s, target)->0);
}

/// With a sorted table, a seek inside the range lands on the last point
/// before the first one at or after the target (or on the first point).
pub proof fn lemma_seek_sorted(s: SegmentState, target: u64)
    requires
        table_sorted(s.table),
        covers(s, target),
    ensures
        seek_result(s, target) == start_point(s.table, target),
{
    lemma_search_finds_count(s.table, target);
    lemma_search_bound(s.table, target, 0, s.table.len() as int);
}

/// A table without its last point (unchanged when empty).
pub open spec fn without_last(t: Seq<SeekPoint>) -> Seq<SeekPoint> {
    if t.len() == 0 {
        t
    } else {
        t.drop_last()
    }
}

/// Places segment `x` into `v` after the last segment not beginning later.
pub fn insert_by_begin(v: &mut Vec<SegmentView>, x: SegmentView)
    ensures
        views(final(v)@) == insert_by(views(old(v)@), x@, by_begin()),
{
    let mut j = v.len();
    while j > 0 && total_less(x.begin_bits, v[j - 1].begin_bits)
        invariant
            j <= v.len(),
            v@ == old(v)@,
            forall|k: int|
                j <= k < v.len() ==> total_rank(x@.begin) < total_rank(#[trigger] v@[k]@.begin),
        decreases j,
    {
        j = j - 1;
    }
    proof {
        let w = views(v@);
        assert forall|k: int| j <= k < w.len() implies by_begin()(x@) < by_begin()(#[trigger] w[k]) by {
            assert(w[k] == v@[k]@);
        }
        lemma_insert_at(w, x@, by_begin(), j as int);
    }
    let ghost before = v@;
    v.insert(j, x);
    assert(views(v@) =~= views(before).insert(j as int, x@));
}

/// Merging two keyframe tables yields a table in time order holding exactly
/// the kept points of both.
pub proof fn lemma_merge_sorted(a: Seq<SeekPoint>, b: Seq<SeekPoint>)
    ensures
        table_sorted(sort_by_key(without_last(a) + without_last(b), by_time())),
        sort_by_key(without_last(a) + without_last(b), by_time()).to_multiset() =~= (
        without_last(a) + without_last(b)).to_multiset(),
{
    lemma_sort_by_key(without_last(a) + without_last(b), by_time());
    let r = sort_by_key(without_last(a) + without_last(b), by_time());
    assert forall|i: int, j: int| 0 <= i <= j < r.len() implies point_rank(r[i]) <= point_rank(
        r[j],
    ) by {
        assert(by_time()(r[i]) <= by_time()(r[j]));
    }
}

/// Places `x` into `v` as `insert_by` with the time key says.
fn insert_by_time(v: &mut Vec<SeekPoint>, x: SeekPoint)
    ensures
        final(v)@ == insert_by(old(v)@, x, by_time()),
{
    let mut j = v.len();
    while j > 0 && total_less(x.pts_bits, v[j - 1].pts_bits)
        invariant
            j <= v.len(),
            v@ == old(v)@,
            forall|k: int| j <= k < v.len() ==> point_rank(x) < point_rank(#[trigger] v@[k]),
        decreases j,
    {
        j = j - 1;
    }
    proof {
        lemma_insert_at(v@, x, by_time(), j as int);
    }
    v.insert(j, x);
}

/// The table sorted by time, stably (as `sort_by` with `f64::total_cmp` on
/// the times).
pub fn sort_by_time(t: &Vec<SeekPoint>) -> (r: Vec<SeekPoint>)
    ensures
        r@ == sort_by_key(t@, by_time()),
{
    let mut r: Vec<SeekPoint> = Vec::new();
    let mut i: usize = 0;
    while i < t.len()
        invariant
            i <= t.len(),
            r@ == sort_by_key(t@.take(i as int), by_time()),
        decreases t.len() - i,
    {
        assert(t@.take(i + 1).drop_last() =~= t@.take(i as int));
        insert_by_time(&mut r, t[i]);
        i = i + 1;
    }
    assert(t@.take(t.len() as int) =~= t@);
    r
}

/// Index of a cached segment.
#[derive(Clone)]
pub struct SegmentView {
    begin_bits: u64,
    end_bits: u64,
    size: u64,
    sealed: bool,
    seek_table: Vec<SeekPoint>,
}

impl View for SegmentView {
    type V = SegmentState;

    closed spec fn view(&self) -> SegmentState {
        SegmentState {
            begin: self.begin_bits,
            end: self.end_bits,
            size: self.size,
            sealed: self.sealed,
            table: self.seek_table@,
        }
    }
}

impl SegmentView {
    /// A segment with no range yet (both bounds NaN), no bytes, unsealed and
    /// with no keyframes.
    pub fn empty() -> (s: SegmentView)
        ensures
            s@ == empty_segment(),
    {
        SegmentView {
            begin_bits: NAN_BITS,
            end_bits: NAN_BITS,
            size: 0,
            sealed: false,
            seek_table: Vec::new(),
        }
    }

    /// The bounds of the covered range, begin first.
    pub fn range(&self) -> (r: (u64, u64))
        ensures
            r == (self@.begin, self@.end),
    {
        (self.begin_bits, self.end_bits)
    }

    /// Bytes written to the segment.
    pub fn size(&self) -> (n: u64)
        ensures
            n == self@.size,
    {
        self.size
    }

    /// Whether the segment reaches the end of the source.
    pub fn is_sealed(&self) -> (b: bool)
        ensures
            b == self@.sealed,
    {
        self.sealed
    }

    /// The keyframe table.
    pub fn points(&self) -> (t: &Vec<SeekPoint>)
        ensures
            t@ == self@.table,
    {
        &self.seek_table
    }

    /// The last keyframe of the table, if any.
    pub fn last_point(&self) -> (p: Option<SeekPoint>)
        ensures
            p == (if self@.table.len() == 0 {
                None
            } else {
                Some(self@.table.last())
            }),
    {
        let n = self.seek_table.len();
        if n == 0 {
            None
        } else {
            Some(self.seek_table[n - 1])
        }
    }

    /// Whether `pts` lies within the segment's range, bounds included.
    pub fn contains(&self, pts_bits: u64) -> (b: bool)
        ensures
            b == covers(self@, pts_bits),
    {
        less_eq(self.begin_bits, pts_bits) && less_eq(pts_bits, self.end_bits)
    }

    /// The keyframe to start reading from for a seek to `pts`: none outside
    /// the range; otherwise the last keyframe before the first one at or
    /// after `pts` (the first keyframe when none is before it), found by
    /// binary search over the table.
    pub fn seek(&self, pts_bits: u64) -> (r: Option<SeekPoint>)
        ensures
            r == seek_result(self@, pts_bits),
            r is Some ==> le(self@.begin, pts_bits) && le(pts_bits, self@.end),
    {
        if !self.contains(pts_bits) {
            return None;
        }
        let res = lower_bound(&self.seek_table, pts_bits);
        proof {
            lemma_search_bound(self@.table, pts_bits, 0, self@.table.len() as int);
        }
        let index = if res < 1 {
            0
        } else {
            res - 1
        };
        if index < self.seek_table.len() {
            let p = self.seek_table[index];
            assert(self@.table[index as int] == p);
            Some(p)
        } else {
            None
        }
    }

    /// Takes over the keyframes of a segment that continues this one: the
    /// last keyframe of each table is dropped (each stands where a jump
    /// between the two now stands), the rest of the other table is appended,
    /// and the table is sorted by time.
    pub fn merge_tables(&mut self, other: &Vec<SeekPoint>)
        ensures
            final(self)@ == (SegmentState {
                table: sort_by_key(without_last(old(self)@.table) + without_last(other@), by_time()),
                ..old(self)@
            }),
    {
        let mut joined = Vec::new();
        let keep = if self.seek_table.len() == 0 {
            0
        } else {
            self.seek_table.len() - 1
        };
        let mut i: usize = 0;
        while i < keep
            invariant
                i <= keep,
                keep == without_last(self@.table).len(),
                self@ == old(self)@,
                joined@ == without_last(self@.table).take(i as int),
            decreases keep - i,
        {
            joined.push(self.seek_table[i]);
            i = i + 1;
            assert(joined@ =~= without_last(self@.table).take(i as int));
        }
        let other_keep = if other.len() == 0 {
            0
        } else {
            other.len() - 1
        };
        let mut k: usize = 0;
        while k < other_keep
            invariant
                k <= other_keep,
                other_keep == without_last(other@).len(),
                i == keep,
                keep == without_last(self@.table).len(),
                self@ == old(self)@,
                joined@ == without_last(self@.table) + without_last(other@).take(k as int),
            decreases other_keep - k,
        {
            joined.push(other[k]);
            k = k + 1;
            assert(joined@ =~= without_last(self@.table) + without_last(other@).take(k as int));
        }
        assert(without_last(other@).take(k as int) =~= without_last(other@));
        self.seek_table = sort_by_time(&joined);
    }

    /// Indexes a keyframe met while reading a cache file back: the range
    /// starts at the first keyframe and ends at the latest time seen, and the
    /// keyframe joins the table.
    pub fn record_loaded_key(&mut self, pts_bits: u64, stream: i32, offset: usize)
        ensures
            final(self)@ == with_loaded_key(old(self)@, pts_bits, stream, offset),
    {
        let begin = self.begin_bits;
        let end = self.end_bits;
        if is_nan(begin) {
            self.begin_bits = pts_bits;
        }
        if is_nan(end) || less(end, pts_bits) {
            self.end_bits = pts_bits;
        }
        self.seek_table.push(SeekPoint { pts_bits, stream, offset });
    }

    /// Indexes a keyframe as it is written: the range widens to hold it, and
    /// it joins the table when `push` says so.
    pub fn record_written_key(&mut self, pts_bits: u64, stream: i32, offset: usize, push: bool)
        ensures
            final(self)@ == (SegmentState {
                begin: if lt(pts_bits, old(self)@.begin) || nan(old(self)@.begin) {
                    pts_bits
                } else {
                    old(self)@.begin
                },
                end: if lt(old(self)@.end, pts_bits) || nan(old(self)@.end) {
                    pts_bits
                } else {
                    old(self)@.end
                },
                table: if push {
                    old(self)@.table.push(SeekPoint { pts_bits, stream, offset })
                } else {
                    old(self)@.table
                },
                ..old(self)@
            }),
    {
        let begin = self.begin_bits;
        let end = self.end_bits;
        if less(pts_bits, begin) || is_nan(begin) {
            self.begin_bits = pts_bits;
        }
        if less(end, pts_bits) || is_nan(end) {
            self.end_bits = pts_bits;
        }
        if push {
            self.seek_table.push(SeekPoint { pts_bits, stream, offset });
        }
    }

    /// Whether this segment's range reaches past the start of `other`'s,
    /// having begun before it.
    pub fn overlaps_with(&self, other: &SegmentView) -> (b: bool)
        ensures
            b == (lt(other@.begin, self@.end) && lt(self@.begin, other@.begin)),
    {
        less(other.begin_bits, self.end_bits) && less(self.begin_bits, other.begin_bits)
    }

    /// Adds `n` bytes to the segment's size, wrapping.
    pub fn add_size(&mut self, n: u64)
        ensures
            final(self)@ == (SegmentState {
                size: old(self)@.size.wrapping_add(n),
                ..old(self)@
            }),
    {
        self.size = self.size.wrapping_add(n);
    }

    /// Marks the segment sealed.
    pub fn set_sealed(&mut self)
        ensures
            final(self)@ == (SegmentState { sealed: true, ..old(self)@ }),
    {
        self.sealed = true;
    }
}

} // verus!
