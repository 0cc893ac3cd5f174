use player::audio_ring::AudioRingBuffer;
use player::float_bits::MINUS_ONE_BITS;
use player::frame_queue::FrameQueue;
use player::packet::{Packet, NO_PTS};
use player::packet_queue::{PacketQueue, PacketQueueView};

fn packet(serial: u32, pts: i64) -> Packet {
    Packet {
        serial,
        id: 0,
        pts,
        dts: pts,
        duration: 1,
        stream_index: 0,
        flags: 0,
        data: vec![pts as u8],
        side_data: vec![],
    }
}

fn secs(x: f64) -> u64 {
    x.to_bits()
}

#[test]
fn packet_queue_view_starts_blank() {
    let v = PacketQueueView::new();
    assert!(!v.is_initialized());
    assert!(!v.closed());
    assert_eq!(v.serial(), None);
    assert_eq!(v.queued_bounds(), None);
}

#[test]
fn packet_queue_is_fifo() {
    let mut q = PacketQueue::new();
    q.push(packet(0, 10), secs(1.0));
    q.push(packet(0, 20), secs(2.0));
    q.push(packet(0, 30), secs(3.0));
    assert_eq!(q.len(), 3);
    assert_eq!(q.pop().map(|p| p.pts), Some(10));
    assert_eq!(q.pop().map(|p| p.pts), Some(20));
    assert_eq!(q.pop().map(|p| p.pts), Some(30));
    assert!(q.pop().is_none());
}

#[test]
fn packet_queue_tracks_span() {
    let mut q = PacketQueue::new();
    q.push(packet(2, 10), secs(1.0));
    assert_eq!(q.serial(), Some(2));
    assert_eq!(q.queued_bounds(), Some((secs(1.0), secs(1.0))));
    q.push(packet(2, 20), secs(2.5));
    assert_eq!(q.queued_bounds(), Some((secs(1.0), secs(2.5))));
    q.pop();
    // only the packet at 2.5 s is left
    assert_eq!(q.queued_bounds(), Some((secs(2.5), secs(2.5))));
    q.pop();
    // nothing queued: an empty span at the former end
    assert_eq!(q.queued_bounds(), Some((secs(2.5), secs(2.5))));
}

#[test]
fn packet_queue_span_is_lowest_to_highest_after_pop() {
    let mut q = PacketQueue::new();
    q.push(packet(0, 10), secs(1.0));
    q.push(packet(0, 20), secs(2.0));
    q.push(packet(0, 30), secs(3.0));
    assert_eq!(q.queued_bounds(), Some((secs(1.0), secs(3.0))));
    q.pop();
    assert_eq!(q.queued_bounds(), Some((secs(2.0), secs(3.0))));
}

#[test]
fn packet_queue_span_with_out_of_order_times() {
    let mut q = PacketQueue::new();
    q.push(packet(0, 30), secs(3.0));
    q.push(packet(0, 10), secs(1.0));
    q.push(packet(0, NO_PTS), secs(0.0));
    q.push(packet(0, 20), secs(2.0));
    // lowest and highest, whatever the push order; untimed packets count not
    assert_eq!(q.queued_bounds(), Some((secs(1.0), secs(3.0))));
    q.pop();
    assert_eq!(q.queued_bounds(), Some((secs(1.0), secs(2.0))));
    q.pop();
    assert_eq!(q.queued_bounds(), Some((secs(2.0), secs(2.0))));
}

#[test]
fn packet_queue_new_serial_clears() {
    let mut q = PacketQueue::new();
    q.push(packet(1, 10), secs(1.0));
    q.push(packet(1, 20), secs(2.0));
    q.push(packet(2, 90), secs(9.0));
    assert_eq!(q.len(), 1);
    assert_eq!(q.serial(), Some(2));
    assert_eq!(q.queued_bounds(), Some((secs(9.0), secs(9.0))));
    assert_eq!(q.pop().map(|p| p.pts), Some(90));
}

#[test]
fn packet_queue_untimed_packet_leaves_view() {
    let mut q = PacketQueue::new();
    q.push(packet(1, NO_PTS), secs(0.0));
    assert!(!q.view().is_initialized());
    assert_eq!(q.serial(), None);
    assert_eq!(q.len(), 1);
}

#[test]
fn packet_queue_close() {
    let mut q = PacketQueue::new();
    q.close();
    assert!(q.view().closed());
    assert!(q.capacity() >= q.len());
}

#[test]
fn ring_fifo() {
    let mut r = AudioRingBuffer::with_capacity(4, 48000, 1);
    assert_eq!(r.remaining_space(), 4);
    assert_eq!(r.append(&[1, 2, 3]), 3);
    assert_eq!(r.available(), 3);
    // only one slot left
    assert_eq!(r.append(&[4, 5]), 1);
    let mut out = [0i16; 3];
    assert_eq!(r.read_to(&mut out, 0), 3);
    assert_eq!(out, [1, 2, 3]);
    assert_eq!(r.append(&[6, 7]), 2);
    let mut rest = [0i16; 5];
    assert_eq!(r.read_to(&mut rest, 0), 3);
    assert_eq!(rest, [4, 6, 7, 0, 0]);
    assert_eq!(r.available(), 0);
}

#[test]
fn ring_serial_change_empties() {
    let mut r = AudioRingBuffer::with_capacity(4, 48000, 2);
    r.append(&[1, 2]);
    assert!(!r.sync_serial(0));
    assert_eq!(r.available(), 2);
    assert!(r.sync_serial(5));
    assert_eq!(r.available(), 0);
    assert_eq!(r.view().serial(), 5);
}

#[test]
fn ring_view_reports_fill() {
    let mut r = AudioRingBuffer::with_capacity(10, 44100, 2);
    r.append(&[1, 2, 3]);
    let v = r.view();
    assert_eq!(v.size(), 3);
    assert_eq!(v.remaining(), 7);
    assert!(!v.closed());
    r.close();
    assert!(!r.view().closed());
}

#[test]
fn ring_of_no_capacity_takes_nothing() {
    let mut r = AudioRingBuffer::with_capacity(0, 48000, 1);
    assert_eq!(r.append(&[1]), 0);
    let mut out = [5i16; 1];
    assert_eq!(r.read_to(&mut out, 0), 0);
    assert_eq!(out, [5]);
}

#[test]
fn frame_queue_slots() {
    let mut q = FrameQueue::new(3);
    assert!(q.has_space());
    assert_eq!(q.peek_read(), None);
    assert_eq!(q.peek_write(0), Some(0));
    q.push(Some(0), false);
    assert_eq!(q.queued_num(), 1);
    assert_eq!(q.peek_read(), Some(0));
    assert_eq!(q.peek_write(0), Some(1));
    q.push(Some(0), false);
    q.push(Some(0), false);
    assert!(!q.has_space());
    assert_eq!(q.peek_write(0), None);
    q.pop();
    assert_eq!(q.peek_read(), Some(1));
    assert_eq!(q.peek_write(0), Some(0));
    let v = q.view();
    assert_eq!(v.queued_num(), 2);
    assert_eq!(v.remaining_space(), 1);
    assert_eq!(v.capacity(), 3);
}

#[test]
fn frame_queue_new_serial_empties() {
    let mut q = FrameQueue::new(4);
    q.push(Some(0), false);
    q.push(Some(0), false);
    assert_eq!(q.peek_write(1), Some(2));
    assert_eq!(q.queued_num(), 0);
    assert_eq!(q.serial(), 1);
    assert_eq!(q.peek_read(), None);
}

#[test]
fn frame_queue_close_hides_frames() {
    let mut q = FrameQueue::new(2);
    q.push(Some(0), false);
    q.close();
    assert_eq!(q.peek_read(), None);
    assert_eq!(q.peek_write(0), None);
    assert!(q.view().closed());
}

#[test]
fn frame_queue_seek_drops_old_frames() {
    let mut q = FrameQueue::new(4);
    q.push(Some(0), false);
    q.set_seek(secs(10.0));
    assert!(q.has_seek());
    // a frame of the serial the seek was set under is dropped
    assert!(q.check_seek_and_clear(Some(0), false));
    // a frame ending before the target is dropped
    assert!(q.check_seek_and_clear(Some(1), true));
    assert!(q.has_seek());
    // any other frame ends the seek
    assert!(!q.check_seek_and_clear(Some(1), false));
    assert!(!q.has_seek());
    assert!(!q.check_seek_and_clear(Some(0), true));
}

#[test]
fn frame_queue_push_under_seek() {
    let mut q = FrameQueue::new(4);
    q.push(Some(0), false);
    q.push(Some(0), false);
    q.set_seek(secs(5.0));
    q.push(Some(0), false);
    assert_eq!(q.queued_num(), 0);
    assert!(q.has_seek());
    q.push(Some(1), false);
    assert_eq!(q.queued_num(), 1);
    assert_eq!(q.serial(), 1);
    assert!(!q.has_seek());
}

#[test]
fn frame_queue_seek_target_zero_is_no_seek() {
    let mut q = FrameQueue::new(2);
    q.set_seek(0.0f64.to_bits());
    assert!(!q.has_seek());
    q.set_seek(MINUS_ONE_BITS);
    assert!(!q.has_seek());
    q.clear();
    assert_eq!(q.queued_num(), 0);
}

use player::audio_ring::{seek_write, SeekWrite};

#[test]
fn ring_seek_decisions() {
    assert_eq!(seek_write(MINUS_ONE_BITS, true), SeekWrite::Write);
    assert_eq!(seek_write(secs(3.0), true), SeekWrite::Skip);
    assert_eq!(seek_write(secs(3.0), false), SeekWrite::EndSeek);
    assert_eq!(seek_write(secs(0.0), false), SeekWrite::EndSeek);
    assert_eq!(seek_write(f64::NAN.to_bits(), true), SeekWrite::Write);
}

#[test]
fn ring_output_fill_rule() {
    let mut r = AudioRingBuffer::with_capacity(8, 48000, 1);
    r.append(&[1, 2, 3, 4]);
    let v = r.view();
    assert!(v.can_fill(4, true));
    assert!(!v.can_fill(5, true));
    assert!(!v.can_fill(2, false));
}

#[test]
fn ring_write_of_new_serial_discards_older_samples() {
    let mut r = AudioRingBuffer::with_capacity(4, 48000, 1);
    assert_eq!(r.write_from(&[1, 2, 3], secs(0.5), 0, 10, false, secs(0.6)), 3);
    assert_eq!(r.available(), 3);
    // a new serial: the ring empties and its clock starts at the new time
    assert_eq!(r.copy_count(6, 7), 4);
    assert_eq!(r.write_from(&[9, 8, 7, 6, 5, 4], secs(4.0), 7, 20, false, secs(4.1)), 4);
    assert_eq!(r.view().serial(), 7);
    assert_eq!(r.available(), 4);
    assert_eq!(r.pts_bits(), secs(4.0));
    let mut out = [0i16; 4];
    assert_eq!(r.read_to(&mut out, 30), 4);
    assert_eq!(out, [9, 8, 7, 6]);
}

#[test]
fn ring_write_skips_samples_before_seek() {
    let mut r = AudioRingBuffer::with_capacity(4, 48000, 1);
    r.set_seek(secs(10.0));
    assert_eq!(r.seek_bits(), secs(10.0));
    // samples ending before the target are dropped, the clock moves to their end
    assert_eq!(r.write_from(&[1, 2], secs(1.0), 0, 5, true, secs(1.5)), 2);
    assert_eq!(r.available(), 0);
    assert_eq!(r.pts_bits(), secs(1.5));
    assert_eq!(r.seek_bits(), secs(10.0));
    // samples reaching the target end the seek and are kept
    assert_eq!(r.write_from(&[3, 4], secs(9.9), 0, 6, false, secs(10.1)), 2);
    assert_eq!(r.available(), 2);
    assert_eq!(r.seek_bits(), MINUS_ONE_BITS);
}

#[test]
fn frame_queue_keeps_capacity_through_operations() {
    let mut q = FrameQueue::new(2);
    for round in 0..5u32 {
        if q.peek_write(round / 2).is_some() {
            q.push(Some(round / 2), false);
        }
        let v = q.view();
        assert_eq!(v.capacity(), 2);
        assert!(v.queued_num() <= 2);
        assert_eq!(v.remaining_space(), 2 - v.queued_num());
        if round % 3 == 2 && q.queued_num() > 0 {
            q.pop();
        }
    }
    q.clear();
    assert_eq!(q.view().remaining_space(), 2);
}
