use player::cache_load::{CacheLoader, LoadStep};
use player::cache_reader::{CacheReader, CachedSpan, ReadOutcome, SeekOutcome};
use player::codec::CodecParameters;
use player::errors::CacheError;
use player::float_bits::NAN_BITS;
use player::packet::{Packet, NO_PTS, PACKET_FLAG_KEY};
use player::segment::{SegmentLine, SegmentLineRead};
use player::segment_index::{lower_bound, sort_by_time, SeekPoint, SegmentView};
use player::segment_writer::{choose_writer_seek, find_overlap, preferred_stream, worker_should_pass, SegmentKeys, WriterSeek};
use player::stream::{Stream, StreamType};

fn t(x: f64) -> u64 {
    x.to_bits()
}

fn params() -> CodecParameters {
    CodecParameters {
        codec_type: 0,
        codec_id: 0,
        codec_tag: 0,
        extra_data: vec![],
        coded_side_data: vec![],
        format: 0,
        bit_rate: 0,
        bits_per_coded_sample: 0,
        bits_per_raw_sample: 0,
        profile: 0,
        level: 0,
        width: 0,
        height: 0,
        sample_aspect_num: 0,
        sample_aspect_den: 0,
        framerate_num: 0,
        framerate_den: 0,
        field_order: 0,
        color_range: 0,
        color_primaries: 0,
        color_trc: 0,
        color_space: 0,
        chroma_location: 0,
        video_delay: 0,
        nb_channels: 0,
        channel_order: 0,
        channel_mask: 0,
        channel_map: vec![],
        sample_rate: 0,
        block_align: 0,
        frame_size: 0,
        initial_padding: 0,
        trailing_padding: 0,
        seek_preroll: 0,
        alpha_mode: 0,
    }
}

fn stream(index: i32, kind: StreamType) -> Stream {
    Stream {
        index,
        timebase_bits: t(0.001),
        duration_bits: t(10.0),
        start_time_bits: t(0.0),
        stream_type: kind,
        parameters: params(),
    }
}

fn point(pts: f64, offset: usize) -> SeekPoint {
    SeekPoint { pts_bits: t(pts), stream: 0, offset }
}

fn segment(points: &[(f64, usize)]) -> SegmentView {
    let mut s = SegmentView::empty();
    for &(pts, off) in points {
        s.record_loaded_key(t(pts), 0, off);
    }
    s
}

#[test]
fn empty_segment_has_no_range() {
    let s = SegmentView::empty();
    assert_eq!(s.range(), (NAN_BITS, NAN_BITS));
    assert!(!s.contains(t(0.0)));
    assert_eq!(s.seek(t(0.0)), None);
    assert_eq!(s.size(), 0);
    assert!(!s.is_sealed());
    assert_eq!(s.last_point(), None);
}

#[test]
fn loaded_keys_set_range() {
    let s = segment(&[(1.0, 100), (2.0, 200), (1.5, 300)]);
    assert_eq!(s.range(), (t(1.0), t(2.0)));
    assert!(s.contains(t(1.0)));
    assert!(s.contains(t(2.0)));
    assert!(!s.contains(t(2.5)));
    assert!(!s.contains(f64::NAN.to_bits()));
    assert_eq!(s.points().len(), 3);
}

#[test]
fn seek_lands_before_target() {
    let s = segment(&[(1.0, 100), (2.0, 200), (3.0, 300), (4.0, 400)]);
    // between two keyframes: the one before
    assert_eq!(s.seek(t(2.5)).map(|p| p.offset), Some(200));
    // exactly on a keyframe: the one before it
    assert_eq!(s.seek(t(3.0)).map(|p| p.offset), Some(200));
    // at the start: the first
    assert_eq!(s.seek(t(1.0)).map(|p| p.offset), Some(100));
    assert_eq!(s.seek(t(4.0)).map(|p| p.offset), Some(300));
    assert_eq!(s.seek(t(4.5)), None);
}

#[test]
fn lower_bound_counts_earlier_points() {
    let v = vec![point(1.0, 0), point(2.0, 0), point(2.0, 0), point(5.0, 0)];
    assert_eq!(lower_bound(&v, t(0.5)), 0);
    assert_eq!(lower_bound(&v, t(2.0)), 1);
    assert_eq!(lower_bound(&v, t(3.0)), 3);
    assert_eq!(lower_bound(&v, t(9.0)), 4);
    assert_eq!(lower_bound(&vec![], t(1.0)), 0);
}

#[test]
fn sort_by_time_is_stable() {
    let v = vec![point(3.0, 1), point(1.0, 2), point(3.0, 3), point(-0.0, 4), point(0.0, 5)];
    let r: Vec<usize> = sort_by_time(&v).iter().map(|p| p.offset).collect();
    assert_eq!(r, vec![4, 5, 2, 1, 3]);
}

#[test]
fn merge_tables_drops_last_points_and_sorts() {
    let mut a = segment(&[(1.0, 10), (3.0, 30), (5.0, 50)]);
    let b = segment(&[(2.0, 20), (4.0, 40), (6.0, 60)]);
    a.merge_tables(b.points());
    let offs: Vec<usize> = a.points().iter().map(|p| p.offset).collect();
    assert_eq!(offs, vec![10, 20, 30, 40]);
    a.add_size(5);
    a.add_size(u64::MAX);
    assert_eq!(a.size(), 4);
}

#[test]
fn written_keys_widen_range() {
    let mut s = SegmentView::empty();
    s.record_written_key(t(5.0), 0, 1, true);
    s.record_written_key(t(2.0), 0, 2, false);
    s.record_written_key(t(7.0), 0, 3, true);
    assert_eq!(s.range(), (t(2.0), t(7.0)));
    assert_eq!(s.points().len(), 2);
}

#[test]
fn overlap_needs_earlier_begin_and_later_end() {
    let a = segment(&[(1.0, 0), (5.0, 0)]);
    let b = segment(&[(3.0, 0), (8.0, 0)]);
    assert!(a.overlaps_with(&b));
    assert!(!b.overlaps_with(&a));
    let others = vec![segment(&[(9.0, 0)]), b];
    assert_eq!(find_overlap(&a, &others), Some(1));
    assert_eq!(find_overlap(&segment(&[(20.0, 0)]), &others), None);
}

#[test]
fn writer_seek_choices() {
    let current = segment(&[(0.0, 0), (1.0, 10)]);
    let others = vec![segment(&[(5.0, 50), (6.0, 60)]), segment(&[(5.5, 55), (9.0, 90)])];
    assert!(matches!(choose_writer_seek(&current, &others, t(0.5)), WriterSeek::Current(p) if p.offset == 0));
    assert!(matches!(choose_writer_seek(&current, &others, t(5.7)), WriterSeek::Other(0, p) if p.offset == 50));
    assert!(matches!(choose_writer_seek(&current, &others, t(8.0)), WriterSeek::Other(1, p) if p.offset == 55));
    assert!(matches!(choose_writer_seek(&current, &others, t(20.0)), WriterSeek::Fresh));
}

#[test]
fn preferred_stream_is_first_video() {
    let streams = vec![stream(0, StreamType::Audio), stream(3, StreamType::Video), stream(4, StreamType::Video)];
    assert_eq!(preferred_stream(&streams), Some(3));
    assert_eq!(preferred_stream(&vec![stream(0, StreamType::Audio)]), None);
}

fn key_packet(stream: i32, pts: i64) -> Packet {
    Packet {
        serial: 0,
        id: 0,
        pts,
        dts: pts,
        duration: 0,
        stream_index: stream,
        flags: PACKET_FLAG_KEY,
        data: vec![],
        side_data: vec![],
    }
}

#[test]
fn segment_keys_track_offsets() {
    let mut keys = SegmentKeys::new(Some(1));
    let mut index = SegmentView::empty();
    keys.update(&mut index, &key_packet(0, 100), t(0.1), false, 10);
    assert_eq!(keys.first_key(), None);
    keys.update(&mut index, &key_packet(1, 100), t(0.1), false, 20);
    keys.update(&mut index, &key_packet(1, 200), t(0.2), true, 30);
    assert_eq!(keys.first_key(), Some(20));
    assert_eq!(keys.last_key(), Some(30));
    assert_eq!(index.points().len(), 2);
    let mut untimed = key_packet(1, NO_PTS);
    untimed.flags = PACKET_FLAG_KEY;
    keys.update(&mut index, &untimed, t(0.3), false, 40);
    assert_eq!(keys.last_key(), Some(30));
}

#[test]
fn segment_keys_space_out_without_preferred_stream() {
    let mut keys = SegmentKeys::new(None);
    let mut index = SegmentView::empty();
    keys.update(&mut index, &key_packet(0, 0), t(0.0), false, 0);
    keys.update(&mut index, &key_packet(0, 1), t(0.1), true, 5);
    keys.update(&mut index, &key_packet(0, 2), t(0.7), false, 9);
    assert_eq!(index.points().len(), 2);
    assert_eq!(keys.last_key(), Some(9));
}

#[test]
fn worker_pass_rules() {
    assert!(worker_should_pass(false, false, false, false));
    assert!(!worker_should_pass(true, false, false, false));
    assert!(!worker_should_pass(false, true, false, false));
    assert!(worker_should_pass(false, true, true, true));
}

#[test]
fn loader_builds_segments() {
    let mut l = CacheLoader::new();
    assert!(matches!(l.step(0, 10, SegmentLineRead::Stream(stream(0, StreamType::Audio)), 0), LoadStep::ReadAt(10)));
    assert!(matches!(l.step(10, 20, SegmentLineRead::Stream(stream(1, StreamType::Video)), 0), LoadStep::ReadAt(20)));
    assert_eq!(l.streams().len(), 2);
    // a key frame of the video stream is indexed
    assert!(matches!(l.step(20, 30, SegmentLineRead::Packet(1000, 1, PACKET_FLAG_KEY), t(1.0)), LoadStep::ReadAt(30)));
    // not key, other stream or untimed: not indexed
    l.step(30, 40, SegmentLineRead::Packet(1100, 1, 0), t(1.1));
    l.step(40, 50, SegmentLineRead::Packet(1200, 0, PACKET_FLAG_KEY), t(1.2));
    l.step(50, 60, SegmentLineRead::Packet(NO_PTS, 1, PACKET_FLAG_KEY), t(9.0));
    l.step(60, 70, SegmentLineRead::Packet(2000, 1, PACKET_FLAG_KEY), t(2.0));
    // a jump goes elsewhere and remembers where to come back
    assert!(matches!(l.step(70, 80, SegmentLineRead::Jump(Some(500)), 0), LoadStep::ReadAt(500)));
    l.step(500, 510, SegmentLineRead::Packet(3000, 1, PACKET_FLAG_KEY), t(3.0));
    // a seal ends the segment and returns
    assert!(matches!(l.step(510, 520, SegmentLineRead::Seal, 0), LoadStep::ReadAt(80)));
    l.step(80, 90, SegmentLineRead::Packet(500, 1, PACKET_FLAG_KEY), t(0.5));
    // an empty jump with nothing to return to ends the read
    assert!(matches!(l.step(90, 100, SegmentLineRead::Jump(None), 0), LoadStep::Finish));
    let (segments, streams) = match l.finish() {
        Ok(r) => r,
        Err(_) => panic!("segments expected"),
    };
    assert_eq!(streams.len(), 2);
    assert_eq!(segments.len(), 2);
    // sorted by begin
    assert_eq!(segments[0].range(), (t(0.5), t(0.5)));
    assert!(!segments[0].is_sealed());
    assert_eq!(segments[1].range(), (t(1.0), t(3.0)));
    assert!(segments[1].is_sealed());
    let offs: Vec<usize> = segments[1].points().iter().map(|p| p.offset).collect();
    assert_eq!(offs, vec![20, 60, 500]);
}

#[test]
fn loader_without_video_indexes_nothing() {
    let mut l = CacheLoader::new();
    l.step(0, 10, SegmentLineRead::Stream(stream(0, StreamType::Audio)), 0);
    l.step(10, 20, SegmentLineRead::Packet(1000, 0, PACKET_FLAG_KEY), t(1.0));
    l.step(20, 30, SegmentLineRead::Packet(2000, 0, PACKET_FLAG_KEY), t(2.0));
    assert!(matches!(l.finish(), Err(CacheError::Eof)));
}

#[test]
fn loader_of_empty_file_is_eof() {
    assert!(matches!(CacheLoader::new().finish(), Err(CacheError::Eof)));
}

#[test]
fn reader_follows_lines() {
    let mut r = CacheReader::new(false);
    assert_eq!(r.read_index(), 0);
    assert!(r.at_end(0));
    assert!(matches!(r.on_line(SegmentLine::Jump(Some(40)), 10, None), ReadOutcome::Continue));
    assert_eq!(r.read_index(), 40);
    assert!(matches!(r.on_line(SegmentLine::Stream(stream(0, StreamType::Video)), 60, None), ReadOutcome::Continue));
    assert_eq!(r.read_index(), 60);
    let mut p = key_packet(0, 5);
    p.serial = 77;
    match r.on_line(SegmentLine::Packet(p), 80, Some(t(0.005))) {
        ReadOutcome::Packet(q) => {
            assert_eq!(q.serial, 0);
            assert_eq!(q.pts, 5);
        }
        _ => panic!("expected a packet"),
    }
    assert_eq!(r.read_index(), 80);
    assert!(matches!(r.on_line(SegmentLine::Seal, 81, None), ReadOutcome::Eof));
    assert!(matches!(r.on_line(SegmentLine::Jump(None), 91, None), ReadOutcome::Eof));
}

#[test]
fn reader_cached_span() {
    let mut r = CacheReader::new(false);
    let s = segment(&[(1.0, 0), (4.0, 40)]);
    assert!(matches!(r.cached_span(&SegmentView::empty()), CachedSpan::Nothing));
    assert!(matches!(r.cached_span(&s), CachedSpan::Unbounded));
    r.on_line(SegmentLine::Packet(key_packet(0, 2)), 10, Some(t(2.0)));
    assert!(matches!(r.cached_span(&s), CachedSpan::Between(e, p) if e == t(4.0) && p == t(2.0)));
    r.on_line(SegmentLine::Packet(key_packet(0, NO_PTS)), 20, None);
    assert!(matches!(r.cached_span(&s), CachedSpan::Between(_, p) if p == t(2.0)));
}

#[test]
fn reader_seek_outcomes() {
    let current = segment(&[(0.0, 0), (1.0, 10)]);
    let others = vec![segment(&[(5.0, 50), (6.0, 60)])];
    let mut r = CacheReader::new(false);
    assert!(matches!(r.seek(&current, &others, t(0.5)), SeekOutcome::InCurrent(0)));
    assert_eq!(r.serial(), 1);
    assert!(matches!(r.seek(&current, &others, t(5.5)), SeekOutcome::InOther(0, 50)));
    assert_eq!(r.read_index(), 50);
    assert!(matches!(r.seek(&current, &others, t(50.0)), SeekOutcome::Missed));
    assert_eq!(r.read_index(), 50);
    assert_eq!(r.serial(), 3);
    let mut m = CacheReader::new(true);
    assert!(matches!(m.seek(&current, &others, t(50.0)), SeekOutcome::AwaitNew));
    assert!(m.awaits_new());
    m.on_new_segment(1234);
    assert!(!m.awaits_new());
    assert_eq!(m.read_index(), 1234);
}

use player::segment_writer::{MergeAction, MergeEvent, TryMerge};

fn finished_with(a: &MergeAction) -> Option<Option<i64>> {
    match a {
        MergeAction::Finish(p) => Some(p.as_ref().map(|p| p.pts)),
        _ => None,
    }
}

#[test]
fn merge_without_last_key_does_nothing() {
    let (_, a) = TryMerge::start(None, Some(1), Some(2), 100);
    assert_eq!(finished_with(&a), Some(None));
}

#[test]
fn merge_finds_packet_and_jumps() {
    let (mut m, a) = TryMerge::start(Some(50), Some(200), Some(400), 900);
    assert!(matches!(a, MergeAction::Read(50)));
    let a = m.step(MergeEvent::Read(Some((key_packet(1, 77), 60))));
    assert!(matches!(a, MergeAction::Read(200)));
    // another packet: scan on
    let a = m.step(MergeEvent::Read(Some((key_packet(1, 70), 230))));
    assert!(matches!(a, MergeAction::Read(230)));
    // the same packet (same pts, flags, stream): jump in from 50 to 230
    let a = m.step(MergeEvent::Read(Some((key_packet(1, 77), 260))));
    assert!(matches!(a, MergeAction::WriteJump(50, 230)));
    let a = m.step(MergeEvent::Written);
    assert!(matches!(a, MergeAction::Read(400)));
    let a = m.step(MergeEvent::Read(Some((key_packet(1, 99), 420))));
    assert!(matches!(a, MergeAction::WriteJump(400, 900)));
    let a = m.step(MergeEvent::Written);
    assert_eq!(finished_with(&a), Some(Some(99)));
}

#[test]
fn merge_stops_when_scan_runs_out() {
    let (mut m, _) = TryMerge::start(Some(50), Some(200), Some(400), 900);
    m.step(MergeEvent::Read(Some((key_packet(1, 77), 60))));
    let a = m.step(MergeEvent::Read(None));
    assert_eq!(finished_with(&a), Some(None));
}

#[test]
fn merge_stops_without_other_first_key() {
    let (mut m, _) = TryMerge::start(Some(50), None, Some(400), 900);
    let a = m.step(MergeEvent::Read(Some((key_packet(1, 77), 60))));
    assert_eq!(finished_with(&a), Some(None));
}

#[test]
fn segment_end_leaves_empty_jump() {
    let mut keys = SegmentKeys::new(None);
    assert!(!keys.end(true, 100));
    assert_eq!(keys.take_empty_jump(), None);
    assert!(keys.end(false, 120));
    assert_eq!(keys.take_empty_jump(), Some(120));
    assert_eq!(keys.take_empty_jump(), None);
    assert_eq!(keys.preferred(), None);
}
