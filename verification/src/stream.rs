//! Description of a media stream, and its binary form in the packet cache.
use crate::buffer::ByteBuffer;
use crate::codec::{codec_bytes, codec_fits, i32_bytes, parse_codec, CodecParameters, CodecParametersView};
use crate::cursor::{get_i32, get_u64, get_u8, offset, reading_from};
use crate::ser::{parse_i32_at, parse_u64_at, u64_bytes, Serializable};
use vstd::prelude::*;

verus! {

/// Kind of media a stream carries.
#[derive(PartialEq, Eq, Structural, Clone, Copy)]
pub enum StreamType {
    Video,
    Audio,
    Data,
    Other,
}

/// Media-type code of video streams.
pub const MEDIA_TYPE_VIDEO: i32 = 0;

/// Media-type code of audio streams.
pub const MEDIA_TYPE_AUDIO: i32 = 1;

/// Media-type code of data streams.
pub const MEDIA_TYPE_DATA: i32 = 2;

impl StreamType {
    /// The stream type of a media-type code; video, audio and data are known,
    /// every other code is refused.
    pub fn try_from_media_type(media_type: i32) -> (r: Result<StreamType, ()>)
        ensures
            media_type == MEDIA_TYPE_VIDEO ==> r == Ok::<StreamType, ()>(StreamType::Video),
            media_type == MEDIA_TYPE_AUDIO ==> r == Ok::<StreamType, ()>(StreamType::Audio),
            media_type == MEDIA_TYPE_DATA ==> r == Ok::<StreamType, ()>(StreamType::Data),
            media_type != MEDIA_TYPE_VIDEO && media_type != MEDIA_TYPE_AUDIO && media_type
                != MEDIA_TYPE_DATA ==> r is Err,
    {
        if media_type == MEDIA_TYPE_VIDEO {
            Ok(StreamType::Video)
        } else if media_type == MEDIA_TYPE_AUDIO {
            Ok(StreamType::Audio)
        } else if media_type == MEDIA_TYPE_DATA {
            Ok(StreamType::Data)
        } else {
            Err(())
        }
    }

    /// The byte that stands for the type in the cache: its declaration index.
    pub fn code(&self) -> (c: u8)
        ensures
            c == type_code(*self),
    {
        match self {
            StreamType::Video => 0,
            StreamType::Audio => 1,
            StreamType::Data => 2,
            StreamType::Other => 3,
        }
    }

    /// The type a cache byte stands for; `None` for bytes above 3.
    pub fn from_code(c: u8) -> (r: Option<StreamType>)
        ensures
            r == type_of_code(c),
    {
        if c == 0 {
            Some(StreamType::Video)
        } else if c == 1 {
            Some(StreamType::Audio)
        } else if c == 2 {
            Some(StreamType::Data)
        } else if c == 3 {
            Some(StreamType::Other)
        } else {
            None
        }
    }
}

/// Cache byte of a stream type.
pub open spec fn type_code(t: StreamType) -> u8 {
    match t {
        StreamType::Video => 0,
        StreamType::Audio => 1,
        StreamType::Data => 2,
        StreamType::Other => 3,
    }
}

/// Stream type of a cache byte.
pub open spec fn type_of_code(c: u8) -> Option<StreamType> {
    if c == 0 {
        Some(StreamType::Video)
    } else if c == 1 {
        Some(StreamType::Audio)
    } else if c == 2 {
        Some(StreamType::Data)
    } else if c == 3 {
        Some(StreamType::Other)
    } else {
        None
    }
}

/// A stream of an input. The time values are the bit patterns of the `f64`
/// seconds they stand for, which is also how they are stored.
#[derive(Clone)]
pub struct Stream {
    pub index: i32,
    /// Seconds per timestamp tick, as `f64` bits.
    pub timebase_bits: u64,
    /// Duration in seconds, as `f64` bits.
    pub duration_bits: u64,
    /// Start time in seconds, as `f64` bits.
    pub start_time_bits: u64,
    pub stream_type: StreamType,
    pub parameters: CodecParameters,
}

/// Plain value of a `Stream`.
pub struct StreamView {
    pub index: i32,
    pub timebase_bits: u64,
    pub duration_bits: u64,
    pub start_time_bits: u64,
    pub stream_type: StreamType,
    pub parameters: CodecParametersView,
}

impl View for Stream {
    type V = StreamView;

    open spec fn view(&self) -> StreamView {
        StreamView {
            index: self.index,
            timebase_bits: self.timebase_bits,
            duration_bits: self.duration_bits,
            start_time_bits: self.start_time_bits,
            stream_type: self.stream_type,
            parameters: self.parameters@,
        }
    }
}

/// Encoding of a stream: index, time base, duration, start time, type byte,
/// codec parameters.
pub open spec fn stream_bytes(st: StreamView) -> Seq<u8> {
    i32_bytes(st.index) + u64_bytes(st.timebase_bits) + u64_bytes(st.duration_bits) + u64_bytes(
        st.start_time_bits,
    ) + seq![type_code(st.stream_type)] + codec_bytes(st.parameters)
}

/// Reads a stream from the front of `s`; an unknown type byte is refused.
pub open spec fn parse_stream(s: Seq<u8>) -> Option<(StreamView, nat)> {
    if s.len() < 29 {
        None
    } else {
        match type_of_code(s[28]) {
            None => None,
            Some(t) => match parse_codec(s.subrange(29, s.len() as int)) {
                None => None,
                Some((params, n)) => Some(
                    (
                        StreamView {
                            index: parse_i32_at(s, 0),
                            timebase_bits: parse_u64_at(s, 4),
                            duration_bits: parse_u64_at(s, 12),
                            start_time_bits: parse_u64_at(s, 20),
                            stream_type: t,
                            parameters: params,
                        },
                        29 + n,
                    ),
                ),
            },
        }
    }
}

/// A written stream reads back with the index, time base, duration, start
/// time and type written, and codec parameters that begin with the type,
/// codec, tag and extra data written, whatever follows.
#[verifier::spinoff_prover]
pub proof fn lemma_stream_leading_fields(st: StreamView, rest: Seq<u8>)
    requires
        st.parameters.extra_data.len() <= usize::MAX,
    ensures
        parse_stream(stream_bytes(st) + rest) matches Some((d, _)) ==> {
            &&& d.index == st.index
            &&& d.timebase_bits == st.timebase_bits
            &&& d.duration_bits == st.duration_bits
            &&& d.start_time_bits == st.start_time_bits
            &&& d.stream_type == st.stream_type
            &&& d.parameters.codec_type == st.parameters.codec_type
            &&& d.parameters.codec_id == st.parameters.codec_id
            &&& d.parameters.codec_tag == st.parameters.codec_tag
            &&& d.parameters.extra_data == st.parameters.extra_data
        },
{
    vstd::bytes::lemma_auto_spec_u32_to_from_le_bytes();
    vstd::bytes::lemma_auto_spec_u64_to_from_le_bytes();
    let head = i32_bytes(st.index) + u64_bytes(st.timebase_bits) + u64_bytes(st.duration_bits)
        + u64_bytes(st.start_time_bits) + seq![type_code(st.stream_type)];
    assert(i32_bytes(st.index).len() == 4);
    assert(u64_bytes(st.timebase_bits).len() == 8);
    assert(u64_bytes(st.duration_bits).len() == 8);
    assert(u64_bytes(st.start_time_bits).len() == 8);
    let body = codec_bytes(st.parameters) + rest;
    let s = head + body;
    assert(stream_bytes(st) + rest =~= s);
    assert(s.subrange(0, 4) =~= i32_bytes(st.index));
    assert(s.subrange(4, 12) =~= u64_bytes(st.timebase_bits));
    assert(s.subrange(12, 20) =~= u64_bytes(st.duration_bits));
    assert(s.subrange(20, 28) =~= u64_bytes(st.start_time_bits));
    assert(s[28] == type_code(st.stream_type));
    assert(s.subrange(29, s.len() as int) =~= body);
    crate::ser::lemma_signed_casts(0, st.index, 0, 0);
    crate::codec::lemma_codec_leading_fields(st.parameters, rest);
}

impl Serializable for Stream {
    type Model = StreamView;

    /// A read never passes the written bytes.
    open spec fn stays_within() -> bool {
        true
    }

    /// A failed read may leave the cursor past the fields it read.
    open spec fn fails_in_place() -> bool {
        false
    }

    open spec fn model(&self) -> StreamView {
        self@
    }

    open spec fn serializable(&self) -> bool {
        codec_fits(self@.parameters)
    }

    open spec fn encode(m: StreamView) -> Seq<u8> {
        stream_bytes(m)
    }

    open spec fn parse_bytes(s: Seq<u8>) -> Option<(StreamView, nat)> {
        parse_stream(s)
    }

    fn serialize(&self, buffer: &mut ByteBuffer) {
        buffer.write_ser(&self.index);
        buffer.write_ser(&self.timebase_bits);
        buffer.write_ser(&self.duration_bits);
        buffer.write_ser(&self.start_time_bits);
        let code = self.stream_type.code();
        buffer.write_ser(&code);
        buffer.write_ser(&self.parameters);
        assert(buffer.bytes() =~= old(buffer).bytes() + stream_bytes(self@));
    }

    fn deserialize(buffer: &mut ByteBuffer) -> (r: Option<Stream>) {
        let ghost origin = buffer.unread();
        let ghost base = buffer.pos() as int;
        let index = get_i32(buffer, Ghost(origin), Ghost(base))?;
        let timebase_bits = get_u64(buffer, Ghost(origin), Ghost(base))?;
        let duration_bits = get_u64(buffer, Ghost(origin), Ghost(base))?;
        let start_time_bits = get_u64(buffer, Ghost(origin), Ghost(base))?;
        let code = get_u8(buffer, Ghost(origin), Ghost(base))?;
        let stream_type = StreamType::from_code(code)?;
        assert(buffer.unread() =~= origin.subrange(29, origin.len() as int));
        let parameters = buffer.read_ser::<CodecParameters>()?;
        Some(Stream { index, timebase_bits, duration_bits, start_time_bits, stream_type, parameters })
    }
}

} // verus!
