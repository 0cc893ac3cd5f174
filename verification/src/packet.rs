//! A demuxed packet as plain values, and its binary form in the packet cache.
use crate::buffer::ByteBuffer;
use crate::cursor::{get_bytes, get_i32, get_i64, get_u32, get_u64, offset, reading_from};
use crate::ser::{
    lemma_signed_casts, parse_i32_at, parse_i64_at, parse_u32_at, parse_u64_at, u32_bytes, u64_bytes,
    Serializable,
};
use vstd::prelude::*;
use vstd::std_specs::cmp::PartialEqSpec;

verus! {

/// Timestamp value meaning "no timestamp".
pub const NO_PTS: i64 = i64::MIN;

/// Packet flag marking a key frame.
pub const PACKET_FLAG_KEY: i32 = 1;

/// A side-data block attached to a packet.
#[derive(Clone)]
pub struct SideData {
    /// Side-data type code.
    pub kind: u32,
    /// Its bytes.
    pub data: Vec<u8>,
}

/// Plain value of a `SideData`.
pub struct SideDataView {
    pub kind: u32,
    pub data: Seq<u8>,
}

impl View for SideData {
    type V = SideDataView;

    open spec fn view(&self) -> SideDataView {
        SideDataView { kind: self.kind, data: self.data@ }
    }
}

/// A compressed media packet.
#[derive(Clone)]
pub struct Packet {
    /// Seek generation the packet belongs to.
    pub serial: u32,
    /// Identifier of the input it came from.
    pub id: usize,
    pub pts: i64,
    pub dts: i64,
    pub duration: i64,
    pub stream_index: i32,
    pub flags: i32,
    /// Payload.
    pub data: Vec<u8>,
    pub side_data: Vec<SideData>,
}

/// Plain value of a `Packet`.
pub struct PacketView {
    pub serial: u32,
    pub id: usize,
    pub pts: i64,
    pub dts: i64,
    pub duration: i64,
    pub stream_index: i32,
    pub flags: i32,
    pub data: Seq<u8>,
    pub side_data: Seq<SideDataView>,
}

impl View for Packet {
    type V = PacketView;

    open spec fn view(&self) -> PacketView {
        PacketView {
            serial: self.serial,
            id: self.id,
            pts: self.pts,
            dts: self.dts,
            duration: self.duration,
            stream_index: self.stream_index,
            flags: self.flags,
            data: self.data@,
            side_data: self.side_data@.map_values(|sd: SideData| sd@),
        }
    }
}

/// Encoding of one side-data block: type, length, bytes.
pub open spec fn side_data_bytes(sd: SideDataView) -> Seq<u8> {
    u32_bytes(sd.kind) + u32_bytes(sd.data.len() as u32) + sd.data
}

/// Encoding of side-data blocks, one after the other.
pub open spec fn side_list_bytes(l: Seq<SideDataView>) -> Seq<u8>
    decreases l.len(),
{
    if l.len() == 0 {
        Seq::empty()
    } else {
        side_list_bytes(l.drop_last()) + side_data_bytes(l.last())
    }
}

/// The fixed 48-byte head of a packet record.
pub open spec fn packet_head_bytes(p: PacketView) -> Seq<u8> {
    u32_bytes(p.serial) + u64_bytes(p.id as u64) + u32_bytes((p.data.len() as i32) as u32)
        + u64_bytes(p.pts as u64) + u64_bytes(p.dts as u64) + u64_bytes(p.duration as u64)
        + u32_bytes(p.stream_index as u32) + u32_bytes(p.flags as u32)
}

/// Encoding of a packet: head, payload, side-data count, side data.
pub open spec fn packet_bytes(p: PacketView) -> Seq<u8> {
    packet_head_bytes(p) + p.data + u32_bytes((p.side_data.len() as i32) as u32)
        + side_list_bytes(p.side_data)
}

/// Whether a packet fits its encoding: payload and side-data count within
/// `i32`, side-data lengths within `u32`.
pub open spec fn packet_fits(p: PacketView) -> bool {
    &&& p.data.len() <= i32::MAX
    &&& p.side_data.len() <= i32::MAX
    &&& forall|i: int| 0 <= i < p.side_data.len() ==> #[trigger] p.side_data[i].data.len() <= u32::MAX
}

/// Reads `count` side-data blocks from `s` at `off`: the blocks and the
/// offset after them.
pub open spec fn parse_side_list(s: Seq<u8>, off: int, count: nat) -> Option<
    (Seq<SideDataView>, int),
>
    decreases count,
{
    if count == 0 {
        Some((Seq::empty(), off))
    } else if off + 8 > s.len() {
        None
    } else {
        let kind = parse_u32_at(s, off);
        let size = parse_u32_at(s, off + 4);
        if off + 8 + size > s.len() {
            None
        } else {
            match parse_side_list(s, off + 8 + size, (count - 1) as nat) {
                Some((rest, end)) => Some(
                    (
                        seq![SideDataView { kind, data: s.subrange(off + 8, off + 8 + size) }]
                            + rest,
                        end,
                    ),
                ),
                None => None,
            }
        }
    }
}

/// Reads a packet from the front of `s`. A negative payload size is refused.
pub open spec fn parse_packet(s: Seq<u8>) -> Option<(PacketView, nat)> {
    if s.len() < 48 {
        None
    } else {
        let size = parse_i32_at(s, 12);
        if size < 0 || s.len() < 52 + size {
            None
        } else {
            let elems = parse_i32_at(s, 48 + size);
            match parse_side_list(s, 52 + size, (#[verifier::truncate] (elems as usize)) as nat) {
                Some((sides, end)) => Some(
                    (
                        PacketView {
                            serial: parse_u32_at(s, 0),
                            id: parse_u64_at(s, 4) as usize,
                            pts: parse_i64_at(s, 16),
                            dts: parse_i64_at(s, 24),
                            duration: parse_i64_at(s, 32),
                            stream_index: parse_i32_at(s, 40),
                            flags: parse_i32_at(s, 44),
                            data: s.subrange(48, 48 + size),
                            side_data: sides,
                        },
                        end as nat,
                    ),
                ),
                None => None,
            }
        }
    }
}

proof fn lemma_side_list_push(l: Seq<SideDataView>, x: SideDataView)
    ensures
        side_list_bytes(l.push(x)) == side_list_bytes(l) + side_data_bytes(x),
{
    assert(l.push(x).drop_last() =~= l);
}

/// Whether two packets are the same packet of a stream: same timestamp,
/// flags and stream.
pub open spec fn same_packet(a: PacketView, b: PacketView) -> bool {
    a.pts == b.pts && a.flags == b.flags && a.stream_index == b.stream_index
}

/// Packets are equal exactly when they have the same timestamp, flags and
/// stream: packets of different streams are never equal, whatever else
/// they share.
pub proof fn lemma_packet_eq(a: Packet, b: Packet)
    ensures
        a.eq_spec(&b) ==> a.pts == b.pts && a.flags == b.flags && a.stream_index == b.stream_index,
        a.stream_index != b.stream_index ==> !a.eq_spec(&b),
        a.pts == b.pts && a.flags == b.flags && a.stream_index == b.stream_index ==> a.eq_spec(&b),
{
}

impl Packet {
    /// Whether the packet starts a key frame.
    pub fn is_key(&self) -> (b: bool)
        ensures
            b == ((self.flags & PACKET_FLAG_KEY) > 0),
    {
        (self.flags & PACKET_FLAG_KEY) > 0
    }
}

impl PartialEq for Packet {
    fn eq(&self, other: &Self) -> (r: bool) {
        self.pts == other.pts && self.flags == other.flags && self.stream_index == other.stream_index
    }
}

impl vstd::std_specs::cmp::PartialEqSpecImpl for Packet {
    open spec fn obeys_eq_spec() -> bool {
        true
    }

    open spec fn eq_spec(&self, other: &Self) -> bool {
        same_packet(self@, other@)
    }
}

impl Serializable for Packet {
    type Model = PacketView;

    /// A read never passes the written bytes.
    open spec fn stays_within() -> bool {
        true
    }

    /// A failed read may leave the cursor past the fields it read.
    open spec fn fails_in_place() -> bool {
        false
    }

    open spec fn model(&self) -> PacketView {
        self@
    }

    open spec fn serializable(&self) -> bool {
        packet_fits(self@)
    }

    open spec fn encode(m: PacketView) -> Seq<u8> {
        packet_bytes(m)
    }

    open spec fn parse_bytes(s: Seq<u8>) -> Option<(PacketView, nat)> {
        parse_packet(s)
    }

    fn serialize(&self, buffer: &mut ByteBuffer) {
        buffer.write_ser(&self.serial);
        let id: u64 = self.id as u64;
        buffer.write_ser(&id);
        let size: i32 = self.data.len() as i32;
        buffer.write_ser(&size);
        buffer.write_ser(&self.pts);
        buffer.write_ser(&self.dts);
        buffer.write_ser(&self.duration);
        buffer.write_ser(&self.stream_index);
        buffer.write_ser(&self.flags);
        buffer.write(self.data.as_slice());
        let elems: i32 = self.side_data.len() as i32;
        buffer.write_ser(&elems);
        let ghost start = buffer.bytes();
        assert(start =~= old(buffer).bytes() + packet_head_bytes(self@) + self.data@ + u32_bytes(
            (self@.side_data.len() as i32) as u32,
        ));
        let mut i: usize = 0;
        while i < self.side_data.len()
            invariant
                buffer.inv(),
                buffer.pos() == old(buffer).pos(),
                i <= self.side_data@.len(),
                packet_fits(self@),
                buffer.bytes() == start + side_list_bytes(self@.side_data.take(i as int)),
            decreases self.side_data@.len() - i,
        {
            let sd = &self.side_data[i];
            buffer.write_ser(&sd.kind);
            let len: u32 = sd.data.len() as u32;
            buffer.write_ser(&len);
            buffer.write(sd.data.as_slice());
            proof {
                assert(self@.side_data[i as int] == sd@);
                assert(self@.side_data.take(i + 1) =~= self@.side_data.take(i as int).push(sd@));
                lemma_side_list_push(self@.side_data.take(i as int), sd@);
            }
            i = i + 1;
        }
        assert(self@.side_data.take(i as int) =~= self@.side_data);
    }

    fn deserialize(buffer: &mut ByteBuffer) -> (r: Option<Packet>) {
        let ghost origin = buffer.unread();
        let ghost base = buffer.pos() as int;
        let serial = get_u32(buffer, Ghost(origin), Ghost(base))?;
        let id_raw = get_u64(buffer, Ghost(origin), Ghost(base))?;
        let id: usize = #[verifier::truncate] (id_raw as usize);
        let size = get_i32(buffer, Ghost(origin), Ghost(base))?;
        if size < 0 {
            return None;
        }
        let pts = get_i64(buffer, Ghost(origin), Ghost(base))?;
        let dts = get_i64(buffer, Ghost(origin), Ghost(base))?;
        let duration = get_i64(buffer, Ghost(origin), Ghost(base))?;
        let stream_index = get_i32(buffer, Ghost(origin), Ghost(base))?;
        let flags = get_i32(buffer, Ghost(origin), Ghost(base))?;
        let data = get_bytes(buffer, size as usize, Ghost(origin), Ghost(base))?;
        let elems = get_i32(buffer, Ghost(origin), Ghost(base))?;
        let count: usize = #[verifier::truncate] (elems as usize);
        let mut side_data: Vec<SideData> = Vec::new();
        let mut i: usize = 0;
        while i < count
            invariant
                reading_from(*buffer, origin, base),
                buffer.bytes() == old(buffer).bytes(),
                origin == old(buffer).unread(),
                base == old(buffer).pos(),
                0 <= size,
                size == parse_i32_at(origin, 12),
                52 + size <= origin.len(),
                elems == parse_i32_at(origin, 48 + size),
                count == #[verifier::truncate] (elems as usize),
                i <= count,
                parse_side_list(origin, 52 + size, count as nat) == match parse_side_list(
                    origin,
                    offset(*buffer, base),
                    (count - i) as nat,
                ) {
                    Some((rest, end)) => Some((side_data@.map_values(|sd: SideData| sd@) + rest, end)),
                    None => None::<(Seq<SideDataView>, int)>,
                },
            decreases count - i,
        {
            let ghost off = offset(*buffer, base);
            let ghost before = side_data@.map_values(|sd: SideData| sd@);
            let kind = get_u32(buffer, Ghost(origin), Ghost(base))?;
            let len = get_u32(buffer, Ghost(origin), Ghost(base))?;
            let bytes = get_bytes(buffer, len as usize, Ghost(origin), Ghost(base))?;
            let ghost item = SideDataView { kind, data: bytes@ };
            side_data.push(SideData { kind, data: bytes });
            proof {
                assert(side_data@.map_values(|sd: SideData| sd@) =~= before.push(item));
                match parse_side_list(origin, offset(*buffer, base), (count - i - 1) as nat) {
                    Some((rest, end)) => {
                        assert(before.push(item) + rest =~= before + (seq![item] + rest));
                    },
                    None => {},
                }
            }
            i = i + 1;
        }
        Some(
            Packet {
                serial,
                id,
                pts,
                dts,
                duration,
                stream_index,
                flags,
                data,
                side_data,
            },
        )
    }
}


proof fn lemma_side_list_front(l: Seq<SideDataView>)
    requires
        l.len() > 0,
    ensures
        side_list_bytes(l) == side_data_bytes(l[0]) + side_list_bytes(l.skip(1)),
    decreases l.len(),
{
    if l.len() == 1 {
        assert(l.drop_last() =~= Seq::<SideDataView>::empty());
        assert(l.skip(1) =~= Seq::<SideDataView>::empty());
        assert(side_list_bytes(l.skip(1)) =~= Seq::<u8>::empty());
        assert(side_list_bytes(l) =~= side_data_bytes(l[0]) + side_list_bytes(l.skip(1)));
    } else {
        lemma_side_list_front(l.drop_last());
        assert(l.drop_last().skip(1) =~= l.skip(1).drop_last());
        assert(l.skip(1).last() == l.last());
        assert(side_list_bytes(l) =~= side_data_bytes(l[0]) + side_list_bytes(l.skip(1)));
    }
}

/// Lengths of the little-endian encodings.
proof fn lemma_int_bytes_len()
    ensures
        forall|x: u32| #[trigger] u32_bytes(x).len() == 4,
        forall|x: u64| #[trigger] u64_bytes(x).len() == 8,
        forall|x: u32| parse_u32_at(#[trigger] u32_bytes(x), 0) == x,
        forall|x: u64| parse_u64_at(#[trigger] u64_bytes(x), 0) == x,
{
    vstd::bytes::lemma_auto_spec_u32_to_from_le_bytes();
    vstd::bytes::lemma_auto_spec_u64_to_from_le_bytes();
    assert forall|x: u32| parse_u32_at(#[trigger] u32_bytes(x), 0) == x by {
        assert(u32_bytes(x).subrange(0, 4) =~= u32_bytes(x));
    }
    assert forall|x: u64| parse_u64_at(#[trigger] u64_bytes(x), 0) == x by {
        assert(u64_bytes(x).subrange(0, 8) =~= u64_bytes(x));
    }
}

/// A field whose bytes sit at `off` in `s` reads back as its value.
proof fn lemma_u32_field(s: Seq<u8>, off: int, x: u32)
    requires
        0 <= off,
        off + 4 <= s.len(),
        s.subrange(off, off + 4) == u32_bytes(x),
    ensures
        parse_u32_at(s, off) == x,
{
    lemma_int_bytes_len();
    assert(u32_bytes(x).subrange(0, 4) =~= u32_bytes(x));
}

proof fn lemma_u64_field(s: Seq<u8>, off: int, x: u64)
    requires
        0 <= off,
        off + 8 <= s.len(),
        s.subrange(off, off + 8) == u64_bytes(x),
    ensures
        parse_u64_at(s, off) == x,
{
    lemma_int_bytes_len();
    assert(u64_bytes(x).subrange(0, 8) =~= u64_bytes(x));
}

proof fn lemma_side_list_len(l: Seq<SideDataView>)
    ensures
        side_list_bytes(l).len() >= 8 * l.len(),
    decreases l.len(),
{
    lemma_int_bytes_len();
    if l.len() > 0 {
        lemma_side_list_len(l.drop_last());
    }
}

proof fn lemma_side_list_parse(l: Seq<SideDataView>, s: Seq<u8>, off: int)
    requires
        0 <= off,
        off + side_list_bytes(l).len() <= s.len(),
        s.subrange(off, off + side_list_bytes(l).len()) == side_list_bytes(l),
        forall|i: int| 0 <= i < l.len() ==> #[trigger] l[i].data.len() <= u32::MAX,
    ensures
        parse_side_list(s, off, l.len()) == Some((l, off + side_list_bytes(l).len())),
    decreases l.len(),
{
    lemma_int_bytes_len();
    if l.len() > 0 {
        lemma_side_list_front(l);
        let x = l[0];
        let hb = side_data_bytes(x);
        let tail = l.skip(1);
        let tb = side_list_bytes(tail);
        let n = x.data.len() as int;
        assert(hb.len() == 8 + n);
        assert(s.subrange(off, off + 4) =~= u32_bytes(x.kind)) by {
            assert(s.subrange(off, off + 4) =~= side_list_bytes(l).subrange(0, 4));
        }
        assert(s.subrange(off + 4, off + 8) =~= u32_bytes(n as u32)) by {
            assert(s.subrange(off + 4, off + 8) =~= side_list_bytes(l).subrange(4, 8));
        }
        lemma_u32_field(s, off, x.kind);
        lemma_u32_field(s, off + 4, n as u32);
        assert(s.subrange(off + 8, off + 8 + n) =~= x.data) by {
            assert(s.subrange(off + 8, off + 8 + n) =~= side_list_bytes(l).subrange(8, 8 + n));
        }
        assert(s.subrange(off + 8 + n, off + 8 + n + tb.len()) =~= tb) by {
            assert(s.subrange(off + 8 + n, off + 8 + n + tb.len()) =~= side_list_bytes(l).subrange(
                8 + n,
                8 + n + tb.len(),
            ));
        }
        assert forall|i: int| 0 <= i < tail.len() implies #[trigger] tail[i].data.len()
            <= u32::MAX by {
            assert(tail[i] == l[i + 1]);
        }
        lemma_side_list_parse(tail, s, off + 8 + n);
        assert(seq![SideDataView { kind: x.kind, data: x.data }] + tail =~= l);
    }
}

/// A written packet that fits its encoding is read back, whatever follows.
pub proof fn lemma_packet_roundtrip(p: PacketView, rest: Seq<u8>)
    requires
        packet_fits(p),
    ensures
        parse_packet(packet_bytes(p) + rest) == Some((p, packet_bytes(p).len())),
{
    lemma_int_bytes_len();
    let s = packet_bytes(p) + rest;
    let n = p.data.len() as int;
    let count = p.side_data.len();
    let tb = side_list_bytes(p.side_data);
    assert(packet_head_bytes(p).len() == 48);
    assert(s.subrange(0, 4) =~= u32_bytes(p.serial));
    lemma_u32_field(s, 0, p.serial);
    assert(s.subrange(4, 12) =~= u64_bytes(p.id as u64));
    lemma_u64_field(s, 4, p.id as u64);
    assert(s.subrange(12, 16) =~= u32_bytes((n as i32) as u32));
    lemma_u32_field(s, 12, (n as i32) as u32);
    assert(s.subrange(16, 24) =~= u64_bytes(p.pts as u64));
    lemma_u64_field(s, 16, p.pts as u64);
    assert(s.subrange(24, 32) =~= u64_bytes(p.dts as u64));
    lemma_u64_field(s, 24, p.dts as u64);
    assert(s.subrange(32, 40) =~= u64_bytes(p.duration as u64));
    lemma_u64_field(s, 32, p.duration as u64);
    assert(s.subrange(40, 44) =~= u32_bytes(p.stream_index as u32));
    lemma_u32_field(s, 40, p.stream_index as u32);
    assert(s.subrange(44, 48) =~= u32_bytes(p.flags as u32));
    lemma_u32_field(s, 44, p.flags as u32);
    assert(s.subrange(48, 48 + n) =~= p.data);
    assert(s.subrange(48 + n, 52 + n) =~= u32_bytes((count as i32) as u32));
    lemma_u32_field(s, 48 + n, (count as i32) as u32);
    assert(s.subrange(52 + n, 52 + n + tb.len()) =~= tb);
    lemma_side_list_parse(p.side_data, s, 52 + n);
    assert(((n as i32) as u32) as i32 == n);
    assert(((count as i32) as u32) as i32 == count);
    lemma_signed_casts(p.pts, p.stream_index, 0, 0);
    lemma_signed_casts(p.dts, p.flags, 0, 0);
    lemma_signed_casts(p.duration, 0, 0, 0);
    assert((p.id as u64) as usize == p.id);
    assert(((count as i32) as usize) as nat == count);
}

} // verus!
