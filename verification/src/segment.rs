//! The lines of a cache segment: packets, jumps to other offsets, stream
//! descriptions and the seal that ends a segment; and a light reader that
//! takes only what the segment index needs from a packet line.
use crate::buffer::ByteBuffer;
use crate::cursor::{get_i32, get_i64, get_u32, get_u64, get_u8, offset, reading_from};
use crate::packet::{packet_bytes, packet_fits, parse_packet, parse_side_list, Packet, PacketView};
use crate::ser::{parse_i32_at, parse_i64_at, parse_u32_at, parse_u64_at, u64_bytes, Serializable};
use crate::stream::{parse_stream, stream_bytes, Stream, StreamView};
use crate::codec::codec_fits;
use vstd::prelude::*;

verus! {

/// One line of a segment.
pub enum SegmentLine {
    Packet(Packet),
    /// A jump to another file offset; `None` is a placeholder for one.
    Jump(Option<u64>),
    Stream(Stream),
    Seal,
}

/// Plain value of a `SegmentLine`.
pub enum SegmentLineView {
    Packet(PacketView),
    Jump(Option<u64>),
    Stream(StreamView),
    Seal,
}

impl View for SegmentLine {
    type V = SegmentLineView;

    open spec fn view(&self) -> SegmentLineView {
        match self {
            SegmentLine::Packet(p) => SegmentLineView::Packet(p@),
            SegmentLine::Jump(j) => SegmentLineView::Jump(*j),
            SegmentLine::Stream(s) => SegmentLineView::Stream(s@),
            SegmentLine::Seal => SegmentLineView::Seal,
        }
    }
}

/// A segment line as the index reader sees it: of a packet only its
/// timestamp, stream index and flags.
pub enum SegmentLineRead {
    Packet(i64, i32, i32),
    Jump(Option<u64>),
    Stream(Stream),
    Seal,
}

/// Plain value of a `SegmentLineRead`.
pub enum SegmentLineReadView {
    Packet(i64, i32, i32),
    Jump(Option<u64>),
    Stream(StreamView),
    Seal,
}

impl View for SegmentLineRead {
    type V = SegmentLineReadView;

    open spec fn view(&self) -> SegmentLineReadView {
        match self {
            SegmentLineRead::Packet(pts, index, flags) => SegmentLineReadView::Packet(
                *pts,
                *index,
                *flags,
            ),
            SegmentLineRead::Jump(j) => SegmentLineReadView::Jump(*j),
            SegmentLineRead::Stream(s) => SegmentLineReadView::Stream(s@),
            SegmentLineRead::Seal => SegmentLineReadView::Seal,
        }
    }
}

/// Encoding of a line: a tag byte (0 packet, 1 jump, 2 stream, 3 seal), then
/// the content. A jump holds a presence byte and eight bytes: the offset, or
/// zeros.
pub open spec fn line_bytes(l: SegmentLineView) -> Seq<u8> {
    match l {
        SegmentLineView::Packet(p) => seq![0u8] + packet_bytes(p),
        SegmentLineView::Jump(Some(j)) => seq![1u8, 1u8] + u64_bytes(j),
        SegmentLineView::Jump(None) => seq![1u8, 0u8] + Seq::new(8, |i: int| 0u8),
        SegmentLineView::Stream(st) => seq![2u8] + stream_bytes(st),
        SegmentLineView::Seal => seq![3u8],
    }
}

/// Reads a line from the front of `s`. A jump without offset skips its eight
/// placeholder bytes, past the end of `s` if fewer are left.
pub open spec fn parse_line(s: Seq<u8>) -> Option<(SegmentLineView, nat)> {
    if s.len() < 1 {
        None
    } else {
        let body = s.subrange(1, s.len() as int);
        if s[0] == 0 {
            match parse_packet(body) {
                Some((p, n)) => Some((SegmentLineView::Packet(p), n + 1)),
                None => None,
            }
        } else if s[0] == 1 {
            if s.len() < 2 {
                None
            } else if s[1] == 1 {
                if s.len() < 10 {
                    None
                } else {
                    Some((SegmentLineView::Jump(Some(parse_u64_at(s, 2))), 10))
                }
            } else {
                Some((SegmentLineView::Jump(None), 10))
            }
        } else if s[0] == 2 {
            match parse_stream(body) {
                Some((st, n)) => Some((SegmentLineView::Stream(st), n + 1)),
                None => None,
            }
        } else if s[0] == 3 {
            Some((SegmentLineView::Seal, 1))
        } else {
            None
        }
    }
}

/// Offset after `count` side-data blocks skipped from `off`; the last skip
/// may end past the end of `s`. `None` where a block header is cut short.
pub open spec fn skip_side_list(s: Seq<u8>, off: int, count: nat) -> Option<int>
    decreases count,
{
    if count == 0 {
        Some(off)
    } else if off + 8 > s.len() {
        None
    } else {
        let size = parse_u32_at(s, off + 4);
        skip_side_list(s, off + 8 + size, (count - 1) as nat)
    }
}

/// Whether skipping `count` side-data blocks from `off` reads a block header
/// after a skip went past the end of `s` (the cursor then stands past the
/// written bytes, where no read can be made).
pub open spec fn side_list_overruns(s: Seq<u8>, off: int, count: nat) -> bool
    decreases count,
{
    if count == 0 {
        false
    } else if off > s.len() {
        true
    } else if off + 8 > s.len() {
        false
    } else {
        let size = parse_u32_at(s, off + 4);
        side_list_overruns(s, off + 8 + size, (count - 1) as nat)
    }
}

/// Where a packet line's payload ends: after its 49 header bytes and the
/// payload size (an `i32` taken as a `usize`).
pub open spec fn payload_end(s: Seq<u8>) -> int {
    49 + (#[verifier::truncate] (parse_i32_at(s, 13) as usize))
}

/// The number of side-data blocks of a packet line whose payload ends at
/// `after` (none when the count is not positive).
pub open spec fn side_count(s: Seq<u8>, after: int) -> nat {
    let elems = parse_i32_at(s, after);
    if elems > 0 {
        elems as nat
    } else {
        0
    }
}

/// Reads the index view of a line from the front of `s`. A packet's payload
/// and side data are skipped; the last skip may end past the end of `s`; a
/// negative side-data count skips none.
pub open spec fn parse_line_read(s: Seq<u8>) -> Option<(SegmentLineReadView, nat)> {
    if s.len() < 1 {
        None
    } else if s[0] == 0 {
        if s.len() < 49 {
            None
        } else {
            let after = payload_end(s);
            if after + 4 > s.len() {
                None
            } else {
                match skip_side_list(s, after + 4, side_count(s, after)) {
                    Some(end) => Some(
                        (
                            SegmentLineReadView::Packet(
                                parse_i64_at(s, 17),
                                parse_i32_at(s, 41),
                                parse_i32_at(s, 45),
                            ),
                            end as nat,
                        ),
                    ),
                    None => None,
                }
            }
        }
    } else {
        match parse_line(s) {
            Some((SegmentLineView::Jump(j), n)) => Some((SegmentLineReadView::Jump(j), n)),
            Some((SegmentLineView::Stream(st), n)) => Some((SegmentLineReadView::Stream(st), n)),
            Some((SegmentLineView::Seal, n)) => Some((SegmentLineReadView::Seal, n)),
            _ => None,
        }
    }
}

/// Whether skipping `count` side-data blocks from `off` (the cursor then at
/// `base + off`) reads past the written bytes, or moves the cursor beyond
/// what a `usize` index holds.
pub open spec fn side_skips_overrun(s: Seq<u8>, off: int, count: nat, base: nat) -> bool {
    ||| side_list_overruns(s, off, count)
    ||| (skip_side_list(s, off, count) matches Some(end) && base + end > usize::MAX)
}

/// Whether reading the index view of `s`, with the cursor at `base`, would
/// read past the written bytes after a skip went beyond them, or move the
/// cursor beyond what a `usize` index holds. These reads cannot be made.
pub open spec fn line_read_overruns(s: Seq<u8>, base: nat) -> bool {
    if s.len() >= 49 && s[0] == 0 {
        let after = payload_end(s);
        ||| after > s.len()
        ||| after + 4 <= s.len() && side_skips_overrun(s, after + 4, side_count(s, after), base)
    } else {
        s.len() >= 2 && s[0] == 1 && s[1] != 1 && base + 10 > usize::MAX
    }
}

/// Whether a line fits its encoding.
pub open spec fn line_fits(l: SegmentLineView) -> bool {
    match l {
        SegmentLineView::Packet(p) => packet_fits(p),
        SegmentLineView::Stream(st) => codec_fits(st.parameters),
        _ => true,
    }
}

impl Serializable for SegmentLine {
    type Model = SegmentLineView;

    /// A jump placeholder is skipped whole, even past the written bytes.
    open spec fn stays_within() -> bool {
        false
    }

    /// A failed read may leave the cursor past the fields it read.
    open spec fn fails_in_place() -> bool {
        false
    }

    open spec fn model(&self) -> SegmentLineView {
        self@
    }

    open spec fn serializable(&self) -> bool {
        line_fits(self@)
    }

    open spec fn encode(m: SegmentLineView) -> Seq<u8> {
        line_bytes(m)
    }

    open spec fn parse_bytes(s: Seq<u8>) -> Option<(SegmentLineView, nat)> {
        parse_line(s)
    }

    fn serialize(&self, buffer: &mut ByteBuffer) {
        match self {
            SegmentLine::Packet(packet) => {
                buffer.write_ser(&0u8);
                buffer.write_ser(packet);
            },
            SegmentLine::Jump(jump) => {
                buffer.write_ser(&1u8);
                match jump {
                    Some(j) => {
                        buffer.write_ser(&true);
                        buffer.write_ser(j);
                    },
                    None => {
                        buffer.write_ser(&false);
                        buffer.write_zero::<u64>();
                    },
                }
            },
            SegmentLine::Stream(stream) => {
                buffer.write_ser(&2u8);
                buffer.write_ser(stream);
            },
            SegmentLine::Seal => {
                buffer.write_ser(&3u8);
            },
        }
        assert(buffer.bytes() =~= old(buffer).bytes() + line_bytes(self@));
    }

    fn deserialize(buffer: &mut ByteBuffer) -> (r: Option<SegmentLine>) {
        let ghost origin = buffer.unread();
        let ghost base = buffer.pos() as int;
        let code = get_u8(buffer, Ghost(origin), Ghost(base))?;
        assert(buffer.unread() =~= origin.subrange(1, origin.len() as int));
        if code == 0 {
            let packet = buffer.read_ser::<Packet>()?;
            Some(SegmentLine::Packet(packet))
        } else if code == 1 {
            let is_some = buffer.read_ser::<bool>()?;
            if is_some {
                let ghost mid = buffer.unread();
                let j = buffer.read_ser::<u64>()?;
                assert(mid.subrange(0, 8) =~= origin.subrange(2, 10));
                Some(SegmentLine::Jump(Some(j)))
            } else {
                buffer.advance(8);
                Some(SegmentLine::Jump(None))
            }
        } else if code == 2 {
            let stream = buffer.read_ser::<Stream>()?;
            Some(SegmentLine::Stream(stream))
        } else if code == 3 {
            Some(SegmentLine::Seal)
        } else {
            None
        }
    }
}

impl SegmentLineRead {
    /// Reads the index view of a line at the cursor; see `parse_line_read`.
    /// A packet's last skip, and a jump placeholder, may leave the cursor
    /// past the written bytes. A line whose reading would read past the
    /// written bytes after a skip, or move the cursor beyond a `usize`
    /// index, gives `None`.
    pub fn deserialize(buffer: &mut ByteBuffer) -> (r: Option<SegmentLineRead>)
        requires
            old(buffer).inv(),
        ensures
            final(buffer).wf(),
            final(buffer).bytes() == old(buffer).bytes(),
            line_read_overruns(old(buffer).unread(), old(buffer).pos()) ==> r is None,
            !line_read_overruns(old(buffer).unread(), old(buffer).pos()) ==> match parse_line_read(
                old(buffer).unread(),
            ) {
                Some((m, n)) => r is Some && r.unwrap()@ == m && final(buffer).pos() == old(
                    buffer,
                ).pos() + n,
                None => r is None,
            },
    {
        let ghost origin = buffer.unread();
        let ghost base = buffer.pos() as int;
        let total = buffer.len();
        let code = get_u8(buffer, Ghost(origin), Ghost(base))?;
        if code != 0 {
            assert(buffer.unread() =~= origin.subrange(1, origin.len() as int));
            let line = if code == 1 {
                let is_some = buffer.read_ser::<bool>()?;
                if is_some {
                    let ghost mid = buffer.unread();
                    let j = buffer.read_ser::<u64>()?;
                    assert(mid.subrange(0, 8) =~= origin.subrange(2, 10));
                    SegmentLineRead::Jump(Some(j))
                } else {
                    if !buffer.fits_skip(8) {
                        return None;
                    }
                    buffer.read_zero::<u64>();
                    SegmentLineRead::Jump(None)
                }
            } else if code == 2 {
                let stream = buffer.read_ser::<Stream>()?;
                SegmentLineRead::Stream(stream)
            } else if code == 3 {
                SegmentLineRead::Seal
            } else {
                return None;
            };
            return Some(line);
        }
        let _serial = get_u32(buffer, Ghost(origin), Ghost(base))?;
        let _id = get_u64(buffer, Ghost(origin), Ghost(base))?;
        let size = get_i32(buffer, Ghost(origin), Ghost(base))?;
        let pts = get_i64(buffer, Ghost(origin), Ghost(base))?;
        let _dts = get_i64(buffer, Ghost(origin), Ghost(base))?;
        let _duration = get_i64(buffer, Ghost(origin), Ghost(base))?;
        let stream_index = get_i32(buffer, Ghost(origin), Ghost(base))?;
        let flags = get_i32(buffer, Ghost(origin), Ghost(base))?;
        buffer.advance(#[verifier::truncate] (size as usize));
        assert(offset(*buffer, base) == payload_end(origin));
        if buffer.is_past_end() {
            return None;
        }
        let elems = get_i32(buffer, Ghost(origin), Ghost(base))?;
        let mut i: i32 = 0;
        while i < elems
            invariant
                buffer.wf(),
                0 <= base <= buffer.pos(),
                base <= buffer.bytes().len(),
                buffer.bytes().len() <= usize::MAX,
                buffer.pos() <= usize::MAX,
                origin == buffer.bytes().subrange(base, buffer.bytes().len() as int),
                buffer.bytes() == old(buffer).bytes(),
                origin == old(buffer).unread(),
                base == old(buffer).pos(),
                0 <= i,
                elems > 0 ==> i <= elems,
                origin.len() >= 49,
                pts == parse_i64_at(origin, 17),
                stream_index == parse_i32_at(origin, 41),
                flags == parse_i32_at(origin, 45),
                origin[0] == 0,
                line_read_overruns(origin, base as nat) == side_skips_overrun(
                    origin,
                    offset(*buffer, base),
                    (if elems > 0 { elems - i } else { 0 }) as nat,
                    base as nat,
                ),
                parse_line_read(origin) == match skip_side_list(
                    origin,
                    offset(*buffer, base),
                    (if elems > 0 { elems - i } else { 0 }) as nat,
                ) {
                    Some(end) => Some(
                        (
                            SegmentLineReadView::Packet(pts, stream_index, flags),
                            end as nat,
                        ),
                    ),
                    None => None,
                },
            decreases elems - i,
        {
            let ghost cnt = (elems - i) as nat;
            assert(cnt > 0);
            if buffer.is_past_end() {
                return None;
            }
            assert(buffer.inv());
            let _kind = get_u32(buffer, Ghost(origin), Ghost(base))?;
            let len = get_u32(buffer, Ghost(origin), Ghost(base))?;
            if !buffer.fits_skip(len as usize) {
                proof {
                    let off = offset(*buffer, base) - 8;
                    let next = off + 8 + len;
                    assert(parse_u32_at(origin, off + 4) == len);
                    assert(origin.len() == buffer.bytes().len() - base);
                    if cnt > 1 {
                        assert(next > origin.len());
                        assert(side_list_overruns(origin, next, (cnt - 1) as nat));
                    } else {
                        assert(skip_side_list(origin, next, 0) == Some(next));
                    }
                    assert(side_skips_overrun(origin, off, cnt, base as nat));
                }
                return None;
            }
            buffer.advance(len as usize);
            i = i + 1;
        }
        Some(SegmentLineRead::Packet(pts, stream_index, flags))
    }
}


proof fn lemma_negative_count(e: i32, len: nat)
    requires
        len <= usize::MAX,
        8 * (#[verifier::truncate] (e as usize)) <= len,
    ensures
        e >= 0,
{
    let l: usize = len as usize;
    assert(e < 0 ==> (#[verifier::truncate] (e as usize)) >= (!0usize) - 0x8000_0000usize) by (bit_vector);
    assert(l <= !0usize) by (bit_vector);
    assert(!0usize >= 0xFFFF_FFFFusize) by (bit_vector);
}

/// The index view of a full line.
pub open spec fn light_view(l: SegmentLineView) -> SegmentLineReadView {
    match l {
        SegmentLineView::Packet(p) => SegmentLineReadView::Packet(p.pts, p.stream_index, p.flags),
        SegmentLineView::Jump(j) => SegmentLineReadView::Jump(j),
        SegmentLineView::Stream(st) => SegmentLineReadView::Stream(st),
        SegmentLineView::Seal => SegmentLineReadView::Seal,
    }
}

proof fn lemma_shift_u32(s: Seq<u8>, x: int)
    requires
        1 <= s.len(),
        0 <= x,
        x + 4 <= s.len() - 1,
    ensures
        parse_u32_at(s.subrange(1, s.len() as int), x) == parse_u32_at(s, x + 1),
{
    assert(s.subrange(1, s.len() as int).subrange(x, x + 4) =~= s.subrange(x + 1, x + 5));
}

proof fn lemma_shift_u64(s: Seq<u8>, x: int)
    requires
        1 <= s.len(),
        0 <= x,
        x + 8 <= s.len() - 1,
    ensures
        parse_u64_at(s.subrange(1, s.len() as int), x) == parse_u64_at(s, x + 1),
{
    assert(s.subrange(1, s.len() as int).subrange(x, x + 8) =~= s.subrange(x + 1, x + 9));
}

/// Where the full reader takes `count` side-data blocks, the light reader
/// skips them to the same place.
proof fn lemma_skip_agrees(s: Seq<u8>, off: int, count: nat)
    requires
        1 <= s.len(),
        0 <= off <= s.len() - 1,
        parse_side_list(s.subrange(1, s.len() as int), off, count) is Some,
    ensures
        skip_side_list(s, off + 1, count) == Some(
            parse_side_list(s.subrange(1, s.len() as int), off, count).unwrap().1 + 1,
        ),
        off + 8 * count <= parse_side_list(s.subrange(1, s.len() as int), off, count).unwrap().1,
        parse_side_list(s.subrange(1, s.len() as int), off, count).unwrap().1 <= s.len() - 1,
    decreases count,
{
    let body = s.subrange(1, s.len() as int);
    if count > 0 {
        lemma_shift_u32(s, off + 4);
        let size = parse_u32_at(body, off + 4);
        lemma_skip_agrees(s, off + 8 + size, (count - 1) as nat);
    }
}

/// What the light reader takes from a line is what the full reader takes,
/// cut down to the index view, and it consumes as many bytes.
pub proof fn lemma_light_read_agrees(s: Seq<u8>)
    requires
        parse_line(s) is Some,
        s.len() <= usize::MAX,
    ensures
        parse_line_read(s) == Some((light_view(parse_line(s).unwrap().0), parse_line(s).unwrap().1)),
{
    if s[0] == 0 {
        let body = s.subrange(1, s.len() as int);
        let size = parse_i32_at(body, 12);
        lemma_shift_u32(s, 12);
        lemma_shift_u64(s, 16);
        lemma_shift_u32(s, 40);
        lemma_shift_u32(s, 44);
        lemma_shift_u32(s, 48 + size);
        let elems = parse_i32_at(body, 48 + size);
        let count = (#[verifier::truncate] (elems as usize)) as nat;
        lemma_skip_agrees(s, 52 + size, count);
        assert(#[verifier::truncate] (parse_i32_at(s, 13) as usize) == size);
        lemma_negative_count(elems, s.len());
    }
}

/// A written packet, jump or seal line is read back, whatever follows.
/// (Stream lines are left out: their codec parameters are not read back as
/// written.)
pub proof fn lemma_line_roundtrip(l: SegmentLineView, rest: Seq<u8>)
    requires
        line_fits(l),
        !(l is Stream),
    ensures
        parse_line(line_bytes(l) + rest) == Some((l, line_bytes(l).len())),
{
    let s = line_bytes(l) + rest;
    vstd::bytes::lemma_auto_spec_u64_to_from_le_bytes();
    match l {
        SegmentLineView::Packet(p) => {
            assert(s.subrange(1, s.len() as int) =~= packet_bytes(p) + rest);
            crate::packet::lemma_packet_roundtrip(p, rest);
        },
        SegmentLineView::Jump(Some(j)) => {
            assert(u64_bytes(j).len() == 8);
            assert(s.subrange(2, 10) =~= u64_bytes(j));
            assert(u64_bytes(j).subrange(0, 8) =~= u64_bytes(j));
        },
        SegmentLineView::Jump(None) => {},
        SegmentLineView::Seal => {},
        SegmentLineView::Stream(_) => {},
    }
}

} // verus!
