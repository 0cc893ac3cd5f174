//! Codec parameters of a stream as plain values, and their binary form in
//! the packet cache.
use crate::buffer::ByteBuffer;
use crate::cursor::{get_array16, get_bytes, get_i32, get_i64, get_u32, get_u64, offset, reading_from};
use crate::ser::{parse_i32_at, parse_i64_at, parse_u32_at, parse_u64_at, u32_bytes, u64_bytes, Serializable};
use vstd::prelude::*;

verus! {

/// Channel order whose layout is a bit mask.
pub const CHANNEL_ORDER_NATIVE: i32 = 1;

/// Channel order whose layout is an explicit channel map.
pub const CHANNEL_ORDER_CUSTOM: i32 = 2;

/// Coded side data of the stream.
#[derive(Clone)]
pub struct CodedSideData {
    pub kind: i32,
    pub data: Vec<u8>,
}

/// Plain value of a `CodedSideData`.
pub struct CodedSideDataView {
    pub kind: i32,
    pub data: Seq<u8>,
}

impl View for CodedSideData {
    type V = CodedSideDataView;

    open spec fn view(&self) -> CodedSideDataView {
        CodedSideDataView { kind: self.kind, data: self.data@ }
    }
}

/// One entry of a custom channel map: a 16-byte name and a channel id.
#[derive(Clone)]
pub struct ChannelCustom {
    pub name: [u8; 16],
    pub id: i32,
}

/// Plain value of a `ChannelCustom`.
pub struct ChannelCustomView {
    pub name: Seq<u8>,
    pub id: i32,
}

impl View for ChannelCustom {
    type V = ChannelCustomView;

    open spec fn view(&self) -> ChannelCustomView {
        ChannelCustomView { name: self.name@, id: self.id }
    }
}

/// The parameters a decoder needs to be set up for a stream.
#[derive(Clone)]
pub struct CodecParameters {
    pub codec_type: i32,
    pub codec_id: i32,
    pub codec_tag: u32,
    pub extra_data: Vec<u8>,
    pub coded_side_data: Vec<CodedSideData>,
    pub format: i32,
    pub bit_rate: i64,
    pub bits_per_coded_sample: i32,
    pub bits_per_raw_sample: i32,
    pub profile: i32,
    pub level: i32,
    pub width: i32,
    pub height: i32,
    pub sample_aspect_num: i32,
    pub sample_aspect_den: i32,
    pub framerate_num: i32,
    pub framerate_den: i32,
    pub field_order: i32,
    pub color_range: i32,
    pub color_primaries: i32,
    pub color_trc: i32,
    pub color_space: i32,
    pub chroma_location: i32,
    pub video_delay: i32,
    pub nb_channels: i32,
    pub channel_order: i32,
    /// Channel mask, used when the order is `CHANNEL_ORDER_NATIVE`.
    pub channel_mask: u64,
    /// Channel map, used when the order is `CHANNEL_ORDER_CUSTOM`.
    pub channel_map: Vec<ChannelCustom>,
    pub sample_rate: i32,
    pub block_align: i32,
    pub frame_size: i32,
    pub initial_padding: i32,
    pub trailing_padding: i32,
    pub seek_preroll: i32,
    pub alpha_mode: i32,
}

/// The fixed-width video fields, in their order in the encoding.
pub struct VideoFields {
    pub format: i32,
    pub bit_rate: i64,
    pub bits_per_coded_sample: i32,
    pub bits_per_raw_sample: i32,
    pub profile: i32,
    pub level: i32,
    pub width: i32,
    pub height: i32,
    pub sample_aspect_num: i32,
    pub sample_aspect_den: i32,
    pub framerate_num: i32,
    pub framerate_den: i32,
    pub field_order: i32,
    pub color_range: i32,
    pub color_primaries: i32,
    pub color_trc: i32,
    pub color_space: i32,
    pub chroma_location: i32,
    pub video_delay: i32,
}

/// The fixed-width audio fields, in their order in the encoding.
pub struct AudioFields {
    pub sample_rate: i32,
    pub block_align: i32,
    pub frame_size: i32,
    pub initial_padding: i32,
    pub trailing_padding: i32,
    pub seek_preroll: i32,
    pub alpha_mode: i32,
}

/// Plain value of `CodecParameters`.
pub struct CodecParametersView {
    pub codec_type: i32,
    pub codec_id: i32,
    pub codec_tag: u32,
    pub extra_data: Seq<u8>,
    pub coded_side_data: Seq<CodedSideDataView>,
    pub video: VideoFields,
    pub nb_channels: i32,
    pub channel_order: i32,
    pub channel_mask: u64,
    pub channel_map: Seq<ChannelCustomView>,
    pub audio: AudioFields,
}

impl View for CodecParameters {
    type V = CodecParametersView;

    open spec fn view(&self) -> CodecParametersView {
        CodecParametersView {
            codec_type: self.codec_type,
            codec_id: self.codec_id,
            codec_tag: self.codec_tag,
            extra_data: self.extra_data@,
            coded_side_data: self.coded_side_data@.map_values(|c: CodedSideData| c@),
            video: VideoFields {
                format: self.format,
                bit_rate: self.bit_rate,
                bits_per_coded_sample: self.bits_per_coded_sample,
                bits_per_raw_sample: self.bits_per_raw_sample,
                profile: self.profile,
                level: self.level,
                width: self.width,
                height: self.height,
                sample_aspect_num: self.sample_aspect_num,
                sample_aspect_den: self.sample_aspect_den,
                framerate_num: self.framerate_num,
                framerate_den: self.framerate_den,
                field_order: self.field_order,
                color_range: self.color_range,
                color_primaries: self.color_primaries,
                color_trc: self.color_trc,
                color_space: self.color_space,
                chroma_location: self.chroma_location,
                video_delay: self.video_delay,
            },
            nb_channels: self.nb_channels,
            channel_order: self.channel_order,
            channel_mask: self.channel_mask,
            channel_map: self.channel_map@.map_values(|c: ChannelCustom| c@),
            audio: AudioFields {
                sample_rate: self.sample_rate,
                block_align: self.block_align,
                frame_size: self.frame_size,
                initial_padding: self.initial_padding,
                trailing_padding: self.trailing_padding,
                seek_preroll: self.seek_preroll,
                alpha_mode: self.alpha_mode,
            },
        }
    }
}

/// Bytes of an `i32` field.
pub open spec fn i32_bytes(x: i32) -> Seq<u8> {
    u32_bytes(x as u32)
}

/// Bytes of an `i64` field.
pub open spec fn i64_bytes(x: i64) -> Seq<u8> {
    u64_bytes(x as u64)
}

/// Encoding of one coded side-data entry: length, type, bytes.
pub open spec fn coded_entry_bytes(c: CodedSideDataView) -> Seq<u8> {
    u64_bytes(c.data.len() as u64) + i32_bytes(c.kind) + c.data
}

/// Encoding of coded side-data entries, one after the other.
pub open spec fn coded_list_bytes(l: Seq<CodedSideDataView>) -> Seq<u8>
    decreases l.len(),
{
    if l.len() == 0 {
        Seq::empty()
    } else {
        coded_list_bytes(l.drop_last()) + coded_entry_bytes(l.last())
    }
}

/// Encoding of one custom channel: name, then id.
pub open spec fn channel_bytes(c: ChannelCustomView) -> Seq<u8> {
    c.name + i32_bytes(c.id)
}

/// Encoding of a custom channel map, entry after entry.
pub open spec fn channel_list_bytes(l: Seq<ChannelCustomView>) -> Seq<u8>
    decreases l.len(),
{
    if l.len() == 0 {
        Seq::empty()
    } else {
        channel_list_bytes(l.drop_last()) + channel_bytes(l.last())
    }
}

/// Encoding of the video fields (80 bytes).
pub open spec fn video_bytes(v: VideoFields) -> Seq<u8> {
    i32_bytes(v.format) + i64_bytes(v.bit_rate) + i32_bytes(v.bits_per_coded_sample) + i32_bytes(
        v.bits_per_raw_sample,
    ) + i32_bytes(v.profile) + i32_bytes(v.level) + i32_bytes(v.width) + i32_bytes(v.height)
        + i32_bytes(v.sample_aspect_num) + i32_bytes(v.sample_aspect_den) + i32_bytes(
        v.framerate_num,
    ) + i32_bytes(v.framerate_den) + i32_bytes(v.field_order) + i32_bytes(v.color_range)
        + i32_bytes(v.color_primaries) + i32_bytes(v.color_trc) + i32_bytes(v.color_space)
        + i32_bytes(v.chroma_location) + i32_bytes(v.video_delay)
}

/// Encoding of the audio fields (28 bytes).
pub open spec fn audio_bytes(a: AudioFields) -> Seq<u8> {
    i32_bytes(a.sample_rate) + i32_bytes(a.block_align) + i32_bytes(a.frame_size) + i32_bytes(
        a.initial_padding,
    ) + i32_bytes(a.trailing_padding) + i32_bytes(a.seek_preroll) + i32_bytes(a.alpha_mode)
}

/// Encoding of the channel layout: count and order, then the mask for a
/// native order, the map for a custom order, nothing for any other.
pub open spec fn layout_bytes(c: CodecParametersView) -> Seq<u8> {
    i32_bytes(c.nb_channels) + i32_bytes(c.channel_order) + if c.channel_order
        == CHANNEL_ORDER_NATIVE {
        u64_bytes(c.channel_mask)
    } else if c.channel_order == CHANNEL_ORDER_CUSTOM {
        u64_bytes(c.channel_map.len() as u64) + channel_list_bytes(c.channel_map)
    } else {
        Seq::empty()
    }
}

/// Encoding of codec parameters. The coded side-data count is written
/// twice: as an `i32`, then as a `u32`.
pub open spec fn codec_bytes(c: CodecParametersView) -> Seq<u8> {
    i32_bytes(c.codec_type) + i32_bytes(c.codec_id) + u32_bytes(c.codec_tag) + u64_bytes(
        c.extra_data.len() as u64,
    ) + c.extra_data + i32_bytes(c.coded_side_data.len() as i32) + u32_bytes(
        c.coded_side_data.len() as u32,
    ) + coded_list_bytes(c.coded_side_data) + video_bytes(c.video) + layout_bytes(c) + audio_bytes(
        c.audio,
    )
}

/// Whether parameters fit their encoding: the side-data count within `i32`
/// and, for a custom order, a channel map of `nb_channels` entries.
pub open spec fn codec_fits(c: CodecParametersView) -> bool {
    &&& c.coded_side_data.len() <= i32::MAX
    &&& c.channel_order == CHANNEL_ORDER_CUSTOM ==> c.channel_map.len() == c.nb_channels
}

/// The video fields stored at `off` in `s`.
pub open spec fn parse_video(s: Seq<u8>, off: int) -> VideoFields {
    VideoFields {
        format: parse_i32_at(s, off),
        bit_rate: parse_i64_at(s, off + 4),
        bits_per_coded_sample: parse_i32_at(s, off + 12),
        bits_per_raw_sample: parse_i32_at(s, off + 16),
        profile: parse_i32_at(s, off + 20),
        level: parse_i32_at(s, off + 24),
        width: parse_i32_at(s, off + 28),
        height: parse_i32_at(s, off + 32),
        sample_aspect_num: parse_i32_at(s, off + 36),
        sample_aspect_den: parse_i32_at(s, off + 40),
        framerate_num: parse_i32_at(s, off + 44),
        framerate_den: parse_i32_at(s, off + 48),
        field_order: parse_i32_at(s, off + 52),
        color_range: parse_i32_at(s, off + 56),
        color_primaries: parse_i32_at(s, off + 60),
        color_trc: parse_i32_at(s, off + 64),
        color_space: parse_i32_at(s, off + 68),
        chroma_location: parse_i32_at(s, off + 72),
        video_delay: parse_i32_at(s, off + 76),
    }
}

/// The audio fields stored at `off` in `s`.
pub open spec fn parse_audio(s: Seq<u8>, off: int) -> AudioFields {
    AudioFields {
        sample_rate: parse_i32_at(s, off),
        block_align: parse_i32_at(s, off + 4),
        frame_size: parse_i32_at(s, off + 8),
        initial_padding: parse_i32_at(s, off + 12),
        trailing_padding: parse_i32_at(s, off + 16),
        seek_preroll: parse_i32_at(s, off + 20),
        alpha_mode: parse_i32_at(s, off + 24),
    }
}

/// Reads `count` coded side-data entries at `off`. An entry whose bytes run
/// past the end is kept empty and its bytes are not consumed.
pub open spec fn parse_coded_list(s: Seq<u8>, off: int, count: nat) -> Option<
    (Seq<CodedSideDataView>, int),
>
    decreases count,
{
    if count == 0 {
        Some((Seq::empty(), off))
    } else if off + 12 > s.len() {
        None
    } else {
        let size = #[verifier::truncate] (parse_u64_at(s, off) as usize);
        let kind = parse_i32_at(s, off + 8);
        let (data, next) = if off + 12 + size <= s.len() {
            (s.subrange(off + 12, off + 12 + size), off + 12 + size)
        } else {
            (Seq::<u8>::empty(), off + 12)
        };
        match parse_coded_list(s, next, (count - 1) as nat) {
            Some((rest, end)) => Some((seq![CodedSideDataView { kind, data }] + rest, end)),
            None => None,
        }
    }
}

/// Reads `count` custom channels at `off`. A name that runs past the end is
/// left zeroed and its bytes are not consumed; the id must be there.
pub open spec fn parse_channel_list(s: Seq<u8>, off: int, count: nat) -> Option<
    (Seq<ChannelCustomView>, int),
>
    decreases count,
{
    if count == 0 {
        Some((Seq::empty(), off))
    } else {
        let (name, at) = if off + 16 <= s.len() {
            (s.subrange(off, off + 16), off + 16)
        } else {
            (Seq::new(16, |i: int| 0u8), off)
        };
        if at + 4 > s.len() {
            None
        } else {
            let id = parse_i32_at(s, at);
            match parse_channel_list(s, at + 4, (count - 1) as nat) {
                Some((rest, end)) => Some((seq![ChannelCustomView { name, id }] + rest, end)),
                None => None,
            }
        }
    }
}

/// Reads the channel layout at `off`: count, order, mask, map, and the offset
/// after them.
pub open spec fn parse_layout(s: Seq<u8>, off: int) -> Option<
    (i32, i32, u64, Seq<ChannelCustomView>, int),
> {
    if off + 8 > s.len() {
        None
    } else {
        let nb = parse_i32_at(s, off);
        let order = parse_i32_at(s, off + 4);
        if order == CHANNEL_ORDER_NATIVE {
            if off + 16 > s.len() {
                None
            } else {
                Some((nb, order, parse_u64_at(s, off + 8), Seq::empty(), off + 16))
            }
        } else if order == CHANNEL_ORDER_CUSTOM {
            if off + 16 > s.len() {
                None
            } else {
                let count = #[verifier::truncate] (parse_u64_at(s, off + 8) as usize);
                match parse_channel_list(s, off + 16, count as nat) {
                    Some((map, end)) => Some((nb, order, 0u64, map, end)),
                    None => None,
                }
            }
        } else {
            Some((nb, order, 0u64, Seq::empty(), off + 8))
        }
    }
}

/// Reads codec parameters from the front of `s`. After the extra data a
/// single `i32` count of coded side data is read.
pub open spec fn parse_codec(s: Seq<u8>) -> Option<(CodecParametersView, nat)> {
    if s.len() < 20 {
        None
    } else {
        let extra_len = #[verifier::truncate] (parse_u64_at(s, 12) as usize);
        if extra_len > 0 && 20 + extra_len > s.len() {
            None
        } else {
            let extra = s.subrange(20, 20 + extra_len);
            let o1 = 20 + extra_len;
            if o1 + 4 > s.len() {
                None
            } else {
                let nb = parse_i32_at(s, o1);
                match parse_coded_list(s, o1 + 4, (#[verifier::truncate] (nb as usize)) as nat) {
                    None => None,
                    Some((coded, o2)) => if o2 + 80 > s.len() {
                        None
                    } else {
                        match parse_layout(s, o2 + 80) {
                            None => None,
                            Some((nb_channels, order, mask, map, o3)) => if o3 + 28 > s.len() {
                                None
                            } else {
                                Some(
                                    (
                                        CodecParametersView {
                                            codec_type: parse_i32_at(s, 0),
                                            codec_id: parse_i32_at(s, 4),
                                            codec_tag: parse_u32_at(s, 8),
                                            extra_data: extra,
                                            coded_side_data: coded,
                                            video: parse_video(s, o2),
                                            nb_channels,
                                            channel_order: order,
                                            channel_mask: mask,
                                            channel_map: map,
                                            audio: parse_audio(s, o3),
                                        },
                                        (o3 + 28) as nat,
                                    ),
                                )
                            },
                        }
                    },
                }
            }
        }
    }
}


/// Written codec parameters read back with the fields they begin with:
/// their type, codec, tag and extra data are the ones written, whatever
/// follows them. (Later fields need not read back: the side-data count is
/// written twice but read once.)
#[verifier::spinoff_prover]
pub proof fn lemma_codec_leading_fields(c: CodecParametersView, rest: Seq<u8>)
    requires
        c.extra_data.len() <= usize::MAX,
    ensures
        parse_codec(codec_bytes(c) + rest) matches Some((d, _)) ==> {
            &&& d.codec_type == c.codec_type
            &&& d.codec_id == c.codec_id
            &&& d.codec_tag == c.codec_tag
            &&& d.extra_data == c.extra_data
        },
{
    let n = c.extra_data.len();
    let tail = i32_bytes(c.coded_side_data.len() as i32) + u32_bytes(c.coded_side_data.len() as u32)
        + coded_list_bytes(c.coded_side_data) + video_bytes(c.video) + layout_bytes(c) + audio_bytes(
        c.audio,
    );
    vstd::bytes::lemma_auto_spec_u32_to_from_le_bytes();
    vstd::bytes::lemma_auto_spec_u64_to_from_le_bytes();
    let head = i32_bytes(c.codec_type) + i32_bytes(c.codec_id) + u32_bytes(c.codec_tag) + u64_bytes(
        n as u64,
    ) + c.extra_data;
    assert(codec_bytes(c) =~= head + tail);
    let s = head + (tail + rest);
    assert(codec_bytes(c) + rest =~= s);
    assert(i32_bytes(c.codec_type).len() == 4);
    assert(i32_bytes(c.codec_id).len() == 4);
    assert(u32_bytes(c.codec_tag).len() == 4);
    assert(u64_bytes(n as u64).len() == 8);
    assert(s.subrange(0, 4) =~= i32_bytes(c.codec_type));
    assert(s.subrange(4, 8) =~= i32_bytes(c.codec_id));
    assert(s.subrange(8, 12) =~= u32_bytes(c.codec_tag));
    assert(s.subrange(12, 20) =~= u64_bytes(n as u64));
    assert(s.subrange(20, 20 + n as int) =~= c.extra_data);
    crate::ser::lemma_signed_casts(0, c.codec_type, 0, 0);
    crate::ser::lemma_signed_casts(0, c.codec_id, 0, 0);
    assert(parse_u64_at(s, 12) == n as u64);
    assert((#[verifier::truncate] ((n as u64) as usize)) == n);
}

proof fn lemma_coded_list_push(l: Seq<CodedSideDataView>, x: CodedSideDataView)
    ensures
        coded_list_bytes(l.push(x)) == coded_list_bytes(l) + coded_entry_bytes(x),
{
    assert(l.push(x).drop_last() =~= l);
}

proof fn lemma_channel_list_push(l: Seq<ChannelCustomView>, x: ChannelCustomView)
    ensures
        channel_list_bytes(l.push(x)) == channel_list_bytes(l) + channel_bytes(x),
{
    assert(l.push(x).drop_last() =~= l);
}

impl CodecParameters {
    #[verifier::spinoff_prover]
    fn write_video(&self, buffer: &mut ByteBuffer)
        requires
            old(buffer).inv(),
        ensures
            final(buffer).inv(),
            final(buffer).pos() == old(buffer).pos(),
            final(buffer).bytes() == old(buffer).bytes() + video_bytes(self@.video),
    {
        buffer.write_ser(&self.format);
        buffer.write_ser(&self.bit_rate);
        buffer.write_ser(&self.bits_per_coded_sample);
        buffer.write_ser(&self.bits_per_raw_sample);
        buffer.write_ser(&self.profile);
        buffer.write_ser(&self.level);
        buffer.write_ser(&self.width);
        buffer.write_ser(&self.height);
        buffer.write_ser(&self.sample_aspect_num);
        buffer.write_ser(&self.sample_aspect_den);
        buffer.write_ser(&self.framerate_num);
        buffer.write_ser(&self.framerate_den);
        buffer.write_ser(&self.field_order);
        buffer.write_ser(&self.color_range);
        buffer.write_ser(&self.color_primaries);
        buffer.write_ser(&self.color_trc);
        buffer.write_ser(&self.color_space);
        buffer.write_ser(&self.chroma_location);
        buffer.write_ser(&self.video_delay);
        assert(buffer.bytes() =~= old(buffer).bytes() + video_bytes(self@.video));
    }

    fn write_audio(&self, buffer: &mut ByteBuffer)
        requires
            old(buffer).inv(),
        ensures
            final(buffer).inv(),
            final(buffer).pos() == old(buffer).pos(),
            final(buffer).bytes() == old(buffer).bytes() + audio_bytes(self@.audio),
    {
        buffer.write_ser(&self.sample_rate);
        buffer.write_ser(&self.block_align);
        buffer.write_ser(&self.frame_size);
        buffer.write_ser(&self.initial_padding);
        buffer.write_ser(&self.trailing_padding);
        buffer.write_ser(&self.seek_preroll);
        buffer.write_ser(&self.alpha_mode);
        assert(buffer.bytes() =~= old(buffer).bytes() + audio_bytes(self@.audio));
    }

    fn write_layout(&self, buffer: &mut ByteBuffer)
        requires
            old(buffer).inv(),
        ensures
            final(buffer).inv(),
            final(buffer).pos() == old(buffer).pos(),
            final(buffer).bytes() == old(buffer).bytes() + layout_bytes(self@),
    {
        buffer.write_ser(&self.nb_channels);
        buffer.write_ser(&self.channel_order);
        let ghost head = buffer.bytes();
        if self.channel_order == CHANNEL_ORDER_NATIVE {
            buffer.write_ser(&self.channel_mask);
        } else if self.channel_order == CHANNEL_ORDER_CUSTOM {
            let n: usize = self.channel_map.len();
            buffer.write_ser(&n);
            let ghost start = buffer.bytes();
            let mut i: usize = 0;
            while i < self.channel_map.len()
                invariant
                    buffer.inv(),
                    buffer.pos() == old(buffer).pos(),
                    i <= self@.channel_map.len(),
                    buffer.bytes() == start + channel_list_bytes(self@.channel_map.take(i as int)),
                decreases self@.channel_map.len() - i,
            {
                let ch = &self.channel_map[i];
                buffer.write(&ch.name);
                buffer.write_ser(&ch.id);
                proof {
                    assert(self@.channel_map[i as int] == ch@);
                    assert(self@.channel_map.take(i + 1) =~= self@.channel_map.take(i as int).push(ch@));
                    lemma_channel_list_push(self@.channel_map.take(i as int), ch@);
                }
                i = i + 1;
            }
            assert(self@.channel_map.take(i as int) =~= self@.channel_map);
        }
        assert(buffer.bytes() =~= old(buffer).bytes() + layout_bytes(self@));
    }

    fn write_coded(&self, buffer: &mut ByteBuffer)
        requires
            old(buffer).inv(),
        ensures
            final(buffer).inv(),
            final(buffer).pos() == old(buffer).pos(),
            final(buffer).bytes() == old(buffer).bytes() + coded_list_bytes(self@.coded_side_data),
    {
        let mut i: usize = 0;
        while i < self.coded_side_data.len()
            invariant
                buffer.inv(),
                buffer.pos() == old(buffer).pos(),
                i <= self@.coded_side_data.len(),
                buffer.bytes() == old(buffer).bytes() + coded_list_bytes(
                    self@.coded_side_data.take(i as int),
                ),
            decreases self@.coded_side_data.len() - i,
        {
            let entry = &self.coded_side_data[i];
            let size: usize = entry.data.len();
            buffer.write_ser(&size);
            buffer.write_ser(&entry.kind);
            buffer.write(entry.data.as_slice());
            proof {
                assert(self@.coded_side_data[i as int] == entry@);
                assert(self@.coded_side_data.take(i + 1) =~= self@.coded_side_data.take(i as int).push(entry@));
                lemma_coded_list_push(self@.coded_side_data.take(i as int), entry@);
            }
            i = i + 1;
        }
        assert(self@.coded_side_data.take(i as int) =~= self@.coded_side_data);
    }
}

/// Reads the coded side-data list; see `parse_coded_list`.
fn read_coded(
    buffer: &mut ByteBuffer,
    count: usize,
    Ghost(origin): Ghost<Seq<u8>>,
    Ghost(base): Ghost<int>,
) -> (r: Option<Vec<CodedSideData>>)
    requires
        reading_from(*old(buffer), origin, base),
    ensures
        reading_from(*final(buffer), origin, base),
        final(buffer).bytes() == old(buffer).bytes(),
        match parse_coded_list(origin, offset(*old(buffer), base), count as nat) {
            Some((l, end)) => r is Some && r.unwrap()@.map_values(|c: CodedSideData| c@) == l
                && offset(*final(buffer), base) == end,
            None => r is None,
        },
{
    let mut list: Vec<CodedSideData> = Vec::new();
    let mut i: usize = 0;
    while i < count
        invariant
            reading_from(*buffer, origin, base),
            buffer.bytes() == old(buffer).bytes(),
            i <= count,
            parse_coded_list(origin, offset(*old(buffer), base), count as nat) == match parse_coded_list(
                origin,
                offset(*buffer, base),
                (count - i) as nat,
            ) {
                Some((rest, end)) => Some((list@.map_values(|c: CodedSideData| c@) + rest, end)),
                None => None::<(Seq<CodedSideDataView>, int)>,
            },
        decreases count - i,
    {
        let ghost before = list@.map_values(|c: CodedSideData| c@);
        let size_raw = get_u64(buffer, Ghost(origin), Ghost(base))?;
        let size: usize = #[verifier::truncate] (size_raw as usize);
        let kind = get_i32(buffer, Ghost(origin), Ghost(base))?;
        let data = match get_bytes(buffer, size, Ghost(origin), Ghost(base)) {
            Some(d) => d,
            None => Vec::new(),
        };
        let ghost item = CodedSideDataView { kind, data: data@ };
        list.push(CodedSideData { kind, data });
        proof {
            assert(list@.map_values(|c: CodedSideData| c@) =~= before.push(item));
            match parse_coded_list(origin, offset(*buffer, base), (count - i - 1) as nat) {
                Some((rest, end)) => {
                    assert(before.push(item) + rest =~= before + (seq![item] + rest));
                },
                None => {},
            }
        }
        i = i + 1;
    }
    proof {
        assert(list@.map_values(|c: CodedSideData| c@) + Seq::<CodedSideDataView>::empty()
            =~= list@.map_values(|c: CodedSideData| c@));
    }
    Some(list)
}

/// Reads a custom channel map; see `parse_channel_list`.
fn read_channels(
    buffer: &mut ByteBuffer,
    count: usize,
    Ghost(origin): Ghost<Seq<u8>>,
    Ghost(base): Ghost<int>,
) -> (r: Option<Vec<ChannelCustom>>)
    requires
        reading_from(*old(buffer), origin, base),
    ensures
        reading_from(*final(buffer), origin, base),
        final(buffer).bytes() == old(buffer).bytes(),
        match parse_channel_list(origin, offset(*old(buffer), base), count as nat) {
            Some((l, end)) => r is Some && r.unwrap()@.map_values(|c: ChannelCustom| c@) == l
                && offset(*final(buffer), base) == end,
            None => r is None,
        },
{
    let mut list: Vec<ChannelCustom> = Vec::new();
    let mut i: usize = 0;
    while i < count
        invariant
            reading_from(*buffer, origin, base),
            buffer.bytes() == old(buffer).bytes(),
            i <= count,
            parse_channel_list(origin, offset(*old(buffer), base), count as nat) == match parse_channel_list(
                origin,
                offset(*buffer, base),
                (count - i) as nat,
            ) {
                Some((rest, end)) => Some((list@.map_values(|c: ChannelCustom| c@) + rest, end)),
                None => None::<(Seq<ChannelCustomView>, int)>,
            },
        decreases count - i,
    {
        let ghost before = list@.map_values(|c: ChannelCustom| c@);
        let name = match get_array16(buffer, Ghost(origin), Ghost(base)) {
            Some(n) => n,
            None => {
                let z = [0u8; 16];
                assert(z@ =~= Seq::new(16, |k: int| 0u8));
                z
            },
        };
        let id = get_i32(buffer, Ghost(origin), Ghost(base))?;
        let ghost item = ChannelCustomView { name: name@, id };
        list.push(ChannelCustom { name, id });
        proof {
            assert(list@.map_values(|c: ChannelCustom| c@) =~= before.push(item));
            match parse_channel_list(origin, offset(*buffer, base), (count - i - 1) as nat) {
                Some((rest, end)) => {
                    assert(before.push(item) + rest =~= before + (seq![item] + rest));
                },
                None => {},
            }
        }
        i = i + 1;
    }
    proof {
        assert(list@.map_values(|c: ChannelCustom| c@) + Seq::<ChannelCustomView>::empty()
            =~= list@.map_values(|c: ChannelCustom| c@));
    }
    Some(list)
}


fn read_video(buffer: &mut ByteBuffer, Ghost(origin): Ghost<Seq<u8>>, Ghost(base): Ghost<int>) -> (r:
    Option<VideoFields>)
    requires
        reading_from(*old(buffer), origin, base),
    ensures
        reading_from(*final(buffer), origin, base),
        final(buffer).bytes() == old(buffer).bytes(),
        offset(*old(buffer), base) + 80 <= origin.len() ==> r == Some(
            parse_video(origin, offset(*old(buffer), base)),
        ) && offset(*final(buffer), base) == offset(*old(buffer), base) + 80,
        offset(*old(buffer), base) + 80 > origin.len() ==> r is None,
{
    let format = get_i32(buffer, Ghost(origin), Ghost(base))?;
    let bit_rate = get_i64(buffer, Ghost(origin), Ghost(base))?;
    let bits_per_coded_sample = get_i32(buffer, Ghost(origin), Ghost(base))?;
    let bits_per_raw_sample = get_i32(buffer, Ghost(origin), Ghost(base))?;
    let profile = get_i32(buffer, Ghost(origin), Ghost(base))?;
    let level = get_i32(buffer, Ghost(origin), Ghost(base))?;
    let width = get_i32(buffer, Ghost(origin), Ghost(base))?;
    let height = get_i32(buffer, Ghost(origin), Ghost(base))?;
    let sample_aspect_num = get_i32(buffer, Ghost(origin), Ghost(base))?;
    let sample_aspect_den = get_i32(buffer, Ghost(origin), Ghost(base))?;
    let framerate_num = get_i32(buffer, Ghost(origin), Ghost(base))?;
    let framerate_den = get_i32(buffer, Ghost(origin), Ghost(base))?;
    let field_order = get_i32(buffer, Ghost(origin), Ghost(base))?;
    let color_range = get_i32(buffer, Ghost(origin), Ghost(base))?;
    let color_primaries = get_i32(buffer, Ghost(origin), Ghost(base))?;
    let color_trc = get_i32(buffer, Ghost(origin), Ghost(base))?;
    let color_space = get_i32(buffer, Ghost(origin), Ghost(base))?;
    let chroma_location = get_i32(buffer, Ghost(origin), Ghost(base))?;
    let video_delay = get_i32(buffer, Ghost(origin), Ghost(base))?;
    Some(VideoFields { format, bit_rate, bits_per_coded_sample, bits_per_raw_sample, profile, level, width, height, sample_aspect_num, sample_aspect_den, framerate_num, framerate_den, field_order, color_range, color_primaries, color_trc, color_space, chroma_location, video_delay })
}

fn read_audio(buffer: &mut ByteBuffer, Ghost(origin): Ghost<Seq<u8>>, Ghost(base): Ghost<int>) -> (r:
    Option<AudioFields>)
    requires
        reading_from(*old(buffer), origin, base),
    ensures
        reading_from(*final(buffer), origin, base),
        final(buffer).bytes() == old(buffer).bytes(),
        offset(*old(buffer), base) + 28 <= origin.len() ==> r == Some(
            parse_audio(origin, offset(*old(buffer), base)),
        ) && offset(*final(buffer), base) == offset(*old(buffer), base) + 28,
        offset(*old(buffer), base) + 28 > origin.len() ==> r is None,
{
    let sample_rate = get_i32(buffer, Ghost(origin), Ghost(base))?;
    let block_align = get_i32(buffer, Ghost(origin), Ghost(base))?;
    let frame_size = get_i32(buffer, Ghost(origin), Ghost(base))?;
    let initial_padding = get_i32(buffer, Ghost(origin), Ghost(base))?;
    let trailing_padding = get_i32(buffer, Ghost(origin), Ghost(base))?;
    let seek_preroll = get_i32(buffer, Ghost(origin), Ghost(base))?;
    let alpha_mode = get_i32(buffer, Ghost(origin), Ghost(base))?;
    Some(AudioFields { sample_rate, block_align, frame_size, initial_padding, trailing_padding, seek_preroll, alpha_mode })
}

fn read_layout(buffer: &mut ByteBuffer, Ghost(origin): Ghost<Seq<u8>>, Ghost(base): Ghost<int>) -> (r:
    Option<(i32, i32, u64, Vec<ChannelCustom>)>)
    requires
        reading_from(*old(buffer), origin, base),
    ensures
        reading_from(*final(buffer), origin, base),
        final(buffer).bytes() == old(buffer).bytes(),
        match parse_layout(origin, offset(*old(buffer), base)) {
            Some((nb, order, mask, map, end)) => r is Some && r.unwrap().0 == nb && r.unwrap().1
                == order && r.unwrap().2 == mask && r.unwrap().3@.map_values(|c: ChannelCustom| c@)
                == map && offset(*final(buffer), base) == end,
            None => r is None,
        },
{
    let nb_channels = get_i32(buffer, Ghost(origin), Ghost(base))?;
    let channel_order = get_i32(buffer, Ghost(origin), Ghost(base))?;
    if channel_order == CHANNEL_ORDER_NATIVE {
        let mask = get_u64(buffer, Ghost(origin), Ghost(base))?;
        let map: Vec<ChannelCustom> = Vec::new();
        assert(map@.map_values(|c: ChannelCustom| c@) =~= Seq::<ChannelCustomView>::empty());
        Some((nb_channels, channel_order, mask, map))
    } else if channel_order == CHANNEL_ORDER_CUSTOM {
        let n_raw = get_u64(buffer, Ghost(origin), Ghost(base))?;
        let n: usize = #[verifier::truncate] (n_raw as usize);
        let map = read_channels(buffer, n, Ghost(origin), Ghost(base))?;
        Some((nb_channels, channel_order, 0u64, map))
    } else {
        let map: Vec<ChannelCustom> = Vec::new();
        assert(map@.map_values(|c: ChannelCustom| c@) =~= Seq::<ChannelCustomView>::empty());
        Some((nb_channels, channel_order, 0u64, map))
    }
}

impl Serializable for CodecParameters {
    type Model = CodecParametersView;

    /// A read never passes the written bytes.
    open spec fn stays_within() -> bool {
        true
    }

    /// A failed read may leave the cursor past the fields it read.
    open spec fn fails_in_place() -> bool {
        false
    }

    open spec fn model(&self) -> CodecParametersView {
        self@
    }

    open spec fn serializable(&self) -> bool {
        codec_fits(self@)
    }

    open spec fn encode(m: CodecParametersView) -> Seq<u8> {
        codec_bytes(m)
    }

    open spec fn parse_bytes(s: Seq<u8>) -> Option<(CodecParametersView, nat)> {
        parse_codec(s)
    }

    fn serialize(&self, buffer: &mut ByteBuffer) {
        buffer.write_ser(&self.codec_type);
        buffer.write_ser(&self.codec_id);
        buffer.write_ser(&self.codec_tag);
        let extra_len: usize = self.extra_data.len();
        buffer.write_ser(&extra_len);
        buffer.write(self.extra_data.as_slice());
        let nb: i32 = self.coded_side_data.len() as i32;
        buffer.write_ser(&nb);
        let count: u32 = #[verifier::truncate] (self.coded_side_data.len() as u32);
        buffer.write_ser(&count);
        let ghost b1 = buffer.bytes();
        self.write_coded(buffer);
        let ghost b2 = buffer.bytes();
        self.write_video(buffer);
        let ghost b3 = buffer.bytes();
        self.write_layout(buffer);
        let ghost b4 = buffer.bytes();
        self.write_audio(buffer);
        assert(buffer.bytes() =~= old(buffer).bytes() + codec_bytes(self@));
    }

    fn deserialize(buffer: &mut ByteBuffer) -> (r: Option<CodecParameters>) {
        let ghost origin = buffer.unread();
        let ghost base = buffer.pos() as int;
        let codec_type = get_i32(buffer, Ghost(origin), Ghost(base))?;
        let codec_id = get_i32(buffer, Ghost(origin), Ghost(base))?;
        let codec_tag = get_u32(buffer, Ghost(origin), Ghost(base))?;
        let extra_raw = get_u64(buffer, Ghost(origin), Ghost(base))?;
        let extra_len: usize = #[verifier::truncate] (extra_raw as usize);
        let extra_data = if extra_len > 0 {
            get_bytes(buffer, extra_len, Ghost(origin), Ghost(base))?
        } else {
            Vec::new()
        };
        assert(extra_data@ =~= origin.subrange(20, 20 + extra_len));
        let nb = get_i32(buffer, Ghost(origin), Ghost(base))?;
        let count: usize = #[verifier::truncate] (nb as usize);
        let coded_side_data = read_coded(buffer, count, Ghost(origin), Ghost(base))?;
        let video = read_video(buffer, Ghost(origin), Ghost(base))?;
        let layout = read_layout(buffer, Ghost(origin), Ghost(base))?;
        let audio = read_audio(buffer, Ghost(origin), Ghost(base))?;
        let (nb_channels, channel_order, channel_mask, channel_map) = layout;
        Some(CodecParameters { codec_type, codec_id, codec_tag, extra_data, coded_side_data, format: video.format, bit_rate: video.bit_rate, bits_per_coded_sample: video.bits_per_coded_sample, bits_per_raw_sample: video.bits_per_raw_sample, profile: video.profile, level: video.level, width: video.width, height: video.height, sample_aspect_num: video.sample_aspect_num, sample_aspect_den: video.sample_aspect_den, framerate_num: video.framerate_num, framerate_den: video.framerate_den, field_order: video.field_order, color_range: video.color_range, color_primaries: video.color_primaries, color_trc: video.color_trc, color_space: video.color_space, chroma_location: video.chroma_location, video_delay: video.video_delay, nb_channels, channel_order, channel_mask, channel_map, sample_rate: audio.sample_rate, block_align: audio.block_align, frame_size: audio.frame_size, initial_padding: audio.initial_padding, trailing_padding: audio.trailing_padding, seek_preroll: audio.seek_preroll, alpha_mode: audio.alpha_mode })
    }
}

} // verus!
