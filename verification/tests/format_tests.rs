use player::buffer::ByteBuffer;
use player::codec::{ChannelCustom, CodecParameters, CodedSideData, CHANNEL_ORDER_CUSTOM, CHANNEL_ORDER_NATIVE};
use player::packet::{Packet, SideData, NO_PTS, PACKET_FLAG_KEY};
use player::record::{check_record, read_record_header, write_record_header, RecordError, RECORD_HEADER_LEN};
use player::segment::{SegmentLine, SegmentLineRead};
use player::stream::{Stream, StreamType};

fn params(order: i32) -> CodecParameters {
    CodecParameters {
        codec_type: 0,
        codec_id: 27,
        codec_tag: 0x3436_3268,
        extra_data: vec![1, 2, 3],
        coded_side_data: vec![],
        format: 5,
        bit_rate: 1_000_000,
        bits_per_coded_sample: 24,
        bits_per_raw_sample: 8,
        profile: 100,
        level: 40,
        width: 1920,
        height: 1080,
        sample_aspect_num: 1,
        sample_aspect_den: 1,
        framerate_num: 30,
        framerate_den: 1,
        field_order: 0,
        color_range: 1,
        color_primaries: 1,
        color_trc: 1,
        color_space: 1,
        chroma_location: 1,
        video_delay: 0,
        nb_channels: 2,
        channel_order: order,
        channel_mask: 3,
        channel_map: vec![
            ChannelCustom { name: [b'L'; 16], id: 0 },
            ChannelCustom { name: [b'R'; 16], id: 1 },
        ],
        sample_rate: 48000,
        block_align: 4,
        frame_size: 1024,
        initial_padding: 0,
        trailing_padding: 0,
        seek_preroll: 0,
        alpha_mode: 0,
    }
}

fn packet() -> Packet {
    Packet {
        serial: 3,
        id: 9,
        pts: 1234,
        dts: 1200,
        duration: 40,
        stream_index: 1,
        flags: PACKET_FLAG_KEY,
        data: vec![10, 20, 30, 40],
        side_data: vec![SideData { kind: 7, data: vec![1, 1] }],
    }
}

#[test]
fn packet_roundtrip() {
    let p = packet();
    let mut b = ByteBuffer::new(0);
    b.write_ser(&p);
    // serial, id, size, pts, dts, duration, stream, flags, data, count, side data
    assert_eq!(b.len(), 4 + 8 + 4 + 8 + 8 + 8 + 4 + 4 + 4 + 4 + (4 + 4 + 2));
    let q: Packet = b.read_ser().unwrap();
    assert_eq!(q.serial, 3);
    assert_eq!(q.id, 9);
    assert_eq!(q.pts, 1234);
    assert_eq!(q.dts, 1200);
    assert_eq!(q.duration, 40);
    assert_eq!(q.stream_index, 1);
    assert_eq!(q.flags, PACKET_FLAG_KEY);
    assert_eq!(q.data, vec![10, 20, 30, 40]);
    assert_eq!(q.side_data.len(), 1);
    assert_eq!(q.side_data[0].kind, 7);
    assert_eq!(q.side_data[0].data, vec![1, 1]);
    assert_eq!(b.remaining(), 0);
}

#[test]
fn packet_truncated_fails() {
    let p = packet();
    let mut b = ByteBuffer::new(0);
    b.write_ser(&p);
    let bytes = b.internal().to_vec();
    let mut short = ByteBuffer::new(0);
    short.write(&bytes[..bytes.len() - 1]);
    assert!(short.read_ser::<Packet>().is_none());
}

#[test]
fn packet_equality_and_key() {
    let a = packet();
    let mut b = packet();
    b.data = vec![];
    b.serial = 99;
    assert!(a == b);
    b.flags = 0;
    assert!(a != b);
    assert!(a.is_key());
    assert!(!b.is_key());
}

#[test]
fn codec_encoding_writes_count_twice() {
    let mut p = params(0);
    p.coded_side_data = vec![CodedSideData { kind: 4, data: vec![5, 6] }];
    let mut b = ByteBuffer::new(0);
    b.write_ser(&p);
    let bytes = b.internal().to_vec();
    // type, id, tag, extra length, extra data
    assert_eq!(&bytes[0..4], &0i32.to_le_bytes());
    assert_eq!(&bytes[4..8], &27i32.to_le_bytes());
    assert_eq!(&bytes[12..20], &3u64.to_le_bytes());
    assert_eq!(&bytes[20..23], &[1, 2, 3]);
    // the side-data count, as i32 and again as u32
    assert_eq!(&bytes[23..27], &1i32.to_le_bytes());
    assert_eq!(&bytes[27..31], &1u32.to_le_bytes());
    // the entry: length (u64), type, data
    assert_eq!(&bytes[31..39], &2u64.to_le_bytes());
    assert_eq!(&bytes[39..43], &4i32.to_le_bytes());
    assert_eq!(&bytes[43..45], &[5, 6]);
    // video fields (80) + layout without map (8) + audio fields (28)
    assert_eq!(bytes.len(), 45 + 80 + 8 + 28);
}

#[test]
fn codec_decoding_reads_the_count_once() {
    // the reader takes the second count as the first video field
    let mut p = params(0);
    p.nb_channels = 0;
    let mut b = ByteBuffer::new(0);
    b.write_ser(&p);
    let q: CodecParameters = b.read_ser().unwrap();
    assert_eq!(q.codec_id, 27);
    assert_eq!(q.extra_data, vec![1, 2, 3]);
    assert_eq!(q.coded_side_data.len(), 0);
    assert_eq!(q.format, 0);
    assert_ne!(q.format, p.format);
    assert_eq!(b.remaining(), 4);
}

#[test]
fn codec_native_layout_bytes() {
    let p = params(CHANNEL_ORDER_NATIVE);
    let mut b = ByteBuffer::new(0);
    b.write_ser(&p);
    let bytes = b.internal().to_vec();
    let layout = 23 + 8 + 80;
    assert_eq!(&bytes[layout..layout + 4], &2i32.to_le_bytes());
    assert_eq!(&bytes[layout + 4..layout + 8], &CHANNEL_ORDER_NATIVE.to_le_bytes());
    assert_eq!(&bytes[layout + 8..layout + 16], &3u64.to_le_bytes());
    assert_eq!(bytes.len(), layout + 16 + 28);
}

#[test]
fn codec_custom_layout_bytes() {
    let p = params(CHANNEL_ORDER_CUSTOM);
    let mut b = ByteBuffer::new(0);
    b.write_ser(&p);
    let bytes = b.internal().to_vec();
    let layout = 23 + 8 + 80;
    assert_eq!(&bytes[layout + 8..layout + 16], &2u64.to_le_bytes());
    assert_eq!(&bytes[layout + 16..layout + 32], &[b'L'; 16]);
    assert_eq!(&bytes[layout + 32..layout + 36], &0i32.to_le_bytes());
    assert_eq!(&bytes[layout + 36..layout + 52], &[b'R'; 16]);
    assert_eq!(bytes.len(), layout + 16 + 2 * 20 + 28);
}

#[test]
fn stream_type_codes() {
    assert!(StreamType::try_from_media_type(0) == Ok(StreamType::Video));
    assert!(StreamType::try_from_media_type(1) == Ok(StreamType::Audio));
    assert!(StreamType::try_from_media_type(2) == Ok(StreamType::Data));
    assert!(StreamType::try_from_media_type(3).is_err());
    assert!(StreamType::try_from_media_type(-1).is_err());
    assert_eq!(StreamType::Other.code(), 3);
    assert!(StreamType::from_code(1) == Some(StreamType::Audio));
    assert!(StreamType::from_code(4).is_none());
}

fn stream() -> Stream {
    let mut parameters = params(0);
    parameters.nb_channels = 0;
    Stream {
        index: 1,
        timebase_bits: (1.0f64 / 90000.0).to_bits(),
        duration_bits: 12.5f64.to_bits(),
        start_time_bits: 0.0f64.to_bits(),
        stream_type: StreamType::Audio,
        parameters,
    }
}

#[test]
fn stereo_stream_line_does_not_read_back() {
    // the channel count lands where the reader expects the channel order,
    // and 2 is the custom order, whose map is then read from the wrong bytes
    let mut s = stream();
    s.parameters.nb_channels = 2;
    let mut b = ByteBuffer::new(0);
    b.write_ser(&SegmentLine::Stream(s));
    assert!(b.read_ser::<SegmentLine>().is_none());
}

#[test]
fn segment_lines_encode_with_tags() {
    let mut b = ByteBuffer::new(0);
    b.write_ser(&SegmentLine::Jump(Some(0x0102)));
    b.write_ser(&SegmentLine::Jump(None));
    b.write_ser(&SegmentLine::Seal);
    assert_eq!(
        b.internal(),
        &[1, 1, 2, 1, 0, 0, 0, 0, 0, 0, 1, 0, 0, 0, 0, 0, 0, 0, 0, 0, 3]
    );
}

#[test]
fn segment_lines_roundtrip() {
    let mut b = ByteBuffer::new(0);
    b.write_ser(&SegmentLine::Packet(packet()));
    b.write_ser(&SegmentLine::Jump(Some(77)));
    b.write_ser(&SegmentLine::Jump(None));
    b.write_ser(&SegmentLine::Seal);
    match b.read_ser::<SegmentLine>() {
        Some(SegmentLine::Packet(p)) => {
            assert_eq!(p.pts, 1234);
            assert_eq!(p.data, vec![10, 20, 30, 40]);
        }
        _ => panic!("expected a packet line"),
    }
    assert!(matches!(b.read_ser::<SegmentLine>(), Some(SegmentLine::Jump(Some(77)))));
    assert!(matches!(b.read_ser::<SegmentLine>(), Some(SegmentLine::Jump(None))));
    assert!(matches!(b.read_ser::<SegmentLine>(), Some(SegmentLine::Seal)));
    assert!(b.read_ser::<SegmentLine>().is_none());
}

#[test]
fn stream_line_reads_back_short() {
    // each line is a record of its own; a stream line is read back four
    // bytes short of what was written (the side-data count written twice)
    let mut b = ByteBuffer::new(0);
    b.write_ser(&SegmentLine::Stream(stream()));
    match b.read_ser::<SegmentLine>() {
        Some(SegmentLine::Stream(s)) => {
            assert_eq!(s.index, 1);
            assert_eq!(f64::from_bits(s.duration_bits), 12.5);
            assert!(s.stream_type == StreamType::Audio);
            assert_eq!(s.parameters.codec_id, 27);
        }
        _ => panic!("expected a stream line"),
    }
    assert_eq!(b.remaining(), 4);
}

#[test]
fn unknown_line_tag_is_refused() {
    let mut b = ByteBuffer::new(0);
    b.write(&[9]);
    assert!(b.read_ser::<SegmentLine>().is_none());
    let mut c = ByteBuffer::new(0);
    c.write(&[9]);
    assert!(SegmentLineRead::deserialize(&mut c).is_none());
}

#[test]
fn light_reader_takes_pts_stream_and_flags() {
    let mut b = ByteBuffer::new(0);
    b.write_ser(&SegmentLine::Packet(packet()));
    b.write_ser(&SegmentLine::Seal);
    match SegmentLineRead::deserialize(&mut b) {
        Some(SegmentLineRead::Packet(pts, stream, flags)) => {
            assert_eq!(pts, 1234);
            assert_eq!(stream, 1);
            assert_eq!(flags, PACKET_FLAG_KEY);
        }
        _ => panic!("expected a packet"),
    }
    assert!(matches!(SegmentLineRead::deserialize(&mut b), Some(SegmentLineRead::Seal)));
}

#[test]
fn light_reader_jumps_and_streams() {
    let mut b = ByteBuffer::new(0);
    b.write_ser(&SegmentLine::Jump(Some(5)));
    b.write_ser(&SegmentLine::Stream(stream()));
    assert!(matches!(SegmentLineRead::deserialize(&mut b), Some(SegmentLineRead::Jump(Some(5)))));
    match SegmentLineRead::deserialize(&mut b) {
        Some(SegmentLineRead::Stream(s)) => assert_eq!(s.index, 1),
        _ => panic!("expected a stream"),
    }
}

#[test]
fn untimed_packet_keeps_marker() {
    let mut p = packet();
    p.pts = NO_PTS;
    let mut b = ByteBuffer::new(0);
    b.write_ser(&SegmentLine::Packet(p));
    match SegmentLineRead::deserialize(&mut b) {
        Some(SegmentLineRead::Packet(pts, _, _)) => assert_eq!(pts, i64::MIN),
        _ => panic!("expected a packet"),
    }
}

#[test]
fn record_header_roundtrip() {
    let mut payload = ByteBuffer::new(0);
    payload.write(b"123456789");
    let mut header = ByteBuffer::new(0);
    write_record_header(&payload, &mut header);
    assert_eq!(header.len(), RECORD_HEADER_LEN);
    assert_eq!(header.internal(), &[9, 0, 0, 0, 0x26, 0x39, 0xF4, 0xCB]);
    assert!(read_record_header(&mut header) == Ok((9, 0xCBF4_3926)));
    assert!(check_record(0xCBF4_3926, &payload) == Ok(()));
}

#[test]
fn record_errors() {
    let mut empty = ByteBuffer::new(0);
    assert!(read_record_header(&mut empty) == Err(RecordError::MissingSize));
    let mut half = ByteBuffer::new(0);
    half.write(&[1, 0, 0, 0, 5]);
    assert!(read_record_header(&mut half) == Err(RecordError::MissingChecksum));
    let mut payload = ByteBuffer::new(0);
    payload.write(&[1, 2, 3]);
    assert!(check_record(0, &payload) == Err(RecordError::Corrupted));
}

#[test]
fn light_reader_takes_packet_whose_last_side_block_runs_short() {
    let mut full = ByteBuffer::new(0);
    full.write_ser(&SegmentLine::Packet(packet()));
    let bytes = full.internal().to_vec();
    // the last side-data block loses one of its two bytes
    let mut b = ByteBuffer::new(0);
    b.write(&bytes[..bytes.len() - 1]);
    match SegmentLineRead::deserialize(&mut b) {
        Some(SegmentLineRead::Packet(pts, stream, _)) => {
            assert_eq!(pts, 1234);
            assert_eq!(stream, 1);
        }
        _ => panic!("expected a packet"),
    }
}

#[test]
fn jump_placeholder_cut_short_still_reads() {
    let mut b = ByteBuffer::new(0);
    b.write(&[1, 0, 0, 0]);
    assert!(matches!(b.read_ser::<SegmentLine>(), Some(SegmentLine::Jump(None))));
    let mut c = ByteBuffer::new(0);
    c.write(&[1, 0, 0]);
    assert!(matches!(SegmentLineRead::deserialize(&mut c), Some(SegmentLineRead::Jump(None))));
}
