use player::audio_ring::AudioRingBuffer;
use player::errors::Error;
use player::frame_queue::FrameQueue;
use player::packet::Packet;
use player::packet_queue::{PacketQueue, PacketQueueView};
use player::workers::{
    cache_job_ready, consumer_has_space_and_serial, decode_job_ready, decode_step, input_job_ready, min_queued,
    pending_range, serial_matches, serving_order, ConsumerView, DecodeStep, DecoderResult, WorkerJobs,
    WorkerMessage, FIVE_SECONDS_BITS,
};

fn t(x: f64) -> u64 {
    x.to_bits()
}

fn view_with_serial(serial: u32) -> PacketQueueView {
    let mut q = PacketQueue::new();
    q.push(
        Packet {
            serial,
            id: 0,
            pts: 0,
            dts: 0,
            duration: 0,
            stream_index: 0,
            flags: 0,
            data: vec![],
            side_data: vec![],
        },
        t(0.0),
    );
    q.view()
}

#[test]
fn five_seconds_constant() {
    assert_eq!(FIVE_SECONDS_BITS, 5.0f64.to_bits());
}

#[test]
fn serial_matches_rules() {
    let fresh = PacketQueueView::new();
    assert!(serial_matches(&vec![], 3));
    assert!(serial_matches(&vec![None, Some(view_with_serial(3))], 3));
    assert!(!serial_matches(&vec![Some(view_with_serial(2))], 3));
    // a queue that saw nothing yet agrees
    assert!(serial_matches(&vec![Some(fresh), Some(view_with_serial(2))], 3));
    assert!(!serial_matches(&vec![Some(view_with_serial(3)), Some(view_with_serial(2)), Some(fresh)], 3));
}

#[test]
fn min_queued_picks_least() {
    assert_eq!(min_queued(&vec![]), None);
    assert_eq!(min_queued(&vec![None, Some(t(3.0)), Some(t(1.5)), None, Some(t(2.0))]), Some(t(1.5)));
    // a NaN first stays, being less than nothing
    let nan = f64::NAN.to_bits();
    assert_eq!(min_queued(&vec![Some(nan), Some(t(1.0))]), Some(nan));
    assert_eq!(min_queued(&vec![Some(t(1.0)), Some(nan)]), Some(t(1.0)));
}

#[test]
fn input_job_readiness() {
    assert!(input_job_ready(None, true, false));
    assert!(input_job_ready(Some(t(4.9)), true, false));
    assert!(!input_job_ready(Some(t(5.0)), true, false));
    assert!(input_job_ready(Some(t(5.0)), false, false));
    assert!(!input_job_ready(None, true, true));
}

#[test]
fn cache_job_readiness() {
    assert!(cache_job_ready(None, true, false, t(5.0)));
    assert!(!cache_job_ready(None, true, false, t(4.0)));
    assert!(cache_job_ready(None, true, true, t(0.1)));
    assert!(!cache_job_ready(None, true, true, t(0.0)));
    assert!(!cache_job_ready(Some(t(6.0)), true, false, t(9.0)));
}

#[test]
fn serving_order_largest_first_stable() {
    let mins = vec![t(1.0), t(3.0), t(1.0), t(2.0)];
    assert_eq!(serving_order(&mins), vec![1, 3, 0, 2]);
    assert_eq!(serving_order(&vec![]), Vec::<usize>::new());
}

#[test]
fn audio_consumer_space() {
    let mut ring = AudioRingBuffer::with_capacity(8, 48000, 1);
    ring.append(&[0; 6]);
    let c = ConsumerView::Audio(ring.view());
    assert!(consumer_has_space_and_serial(&c, None, 100, Some(0)));
    assert!(consumer_has_space_and_serial(&c, Some(Some(0)), 2, Some(0)));
    assert!(!consumer_has_space_and_serial(&c, Some(Some(0)), 3, Some(0)));
    assert!(consumer_has_space_and_serial(&c, Some(Some(1)), 3, Some(0)));
}

#[test]
fn video_consumer_space() {
    let mut q = FrameQueue::new(1);
    let c = ConsumerView::Video(q.view());
    assert!(consumer_has_space_and_serial(&c, None, 0, Some(0)));
    q.push(Some(0), false);
    let full = ConsumerView::Video(q.view());
    assert!(!consumer_has_space_and_serial(&full, None, 0, Some(0)));
    assert!(consumer_has_space_and_serial(&full, None, 0, Some(1)));
    assert!(consumer_has_space_and_serial(&full, None, 0, None));
}

#[test]
fn decode_job_readiness() {
    assert!(decode_job_ready(false, true, t(0.0)));
    assert!(!decode_job_ready(true, true, t(0.0)));
    assert!(decode_job_ready(true, true, t(0.5)));
    assert!(!decode_job_ready(true, false, t(0.5)));
}

#[test]
fn decode_steps() {
    assert!(decode_step(&DecoderResult::FrameReceived, false) == DecodeStep::WriteFrame);
    assert!(decode_step(&DecoderResult::NeedsInput, true) == DecodeStep::SendPacket);
    assert!(decode_step(&DecoderResult::NeedsInput, false) == DecodeStep::RequestInput);
    let e = DecoderResult::Error(Error::with_message(-11, String::from("again")));
    assert!(decode_step(&e, true) == DecodeStep::ReportError);
}

#[test]
fn worker_messages() {
    let mut w: WorkerJobs<u8> = WorkerJobs::new();
    assert!(w.handle_message(WorkerMessage::Wakeup));
    assert!(w.handle_message(WorkerMessage::Job(4)));
    assert_eq!(w.jobs, vec![4]);
    assert!(!w.handle_message(WorkerMessage::End));
    assert!(w.close);
}

#[test]
fn pending_range_of_plane() {
    assert_eq!(pending_range(10, 4), (6, 10));
    assert_eq!(pending_range(10, 0), (10, 10));
}

#[test]
fn error_keeps_code_and_message() {
    let e = Error::with_message(-2, String::from("No such file"));
    assert_eq!(e.code(), -2);
    assert_eq!(e.message(), "No such file");
}

use player::workers::follow_serial;

#[test]
fn playback_follows_serial() {
    assert_eq!(follow_serial(None, 3), (Some(3), false));
    assert_eq!(follow_serial(Some(3), 3), (Some(3), false));
    assert_eq!(follow_serial(Some(2), 3), (Some(3), true));
}

use player::workers::{apply_command, job_alive, InputCommand};

#[test]
fn job_alive_until_a_queue_closes() {
    let mut q = PacketQueue::new();
    assert!(job_alive(&vec![None, Some(q.view())]));
    q.close();
    assert!(!job_alive(&vec![None, Some(q.view())]));
    assert!(job_alive(&vec![]));
}

#[test]
fn input_commands_apply_in_order() {
    let mut entries: Vec<Option<&str>> = vec![None, None];
    let mut begin = false;
    let mut seek = None;
    apply_command(&mut entries, &mut begin, &mut seek, InputCommand::Seek(1, 2, None));
    apply_command(&mut entries, &mut begin, &mut seek, InputCommand::PutQueue(1, "video"));
    apply_command(&mut entries, &mut begin, &mut seek, InputCommand::Seek(3, 4, Some(1)));
    apply_command(&mut entries, &mut begin, &mut seek, InputCommand::Begin);
    assert_eq!(entries, vec![None, Some("video")]);
    assert!(begin);
    assert_eq!(seek, Some((3, 4, Some(1))));
}

#[test]
fn consumer_closed_flags() {
    let mut q = FrameQueue::new(2);
    assert!(!ConsumerView::Video(q.view()).is_closed());
    q.close();
    assert!(ConsumerView::Video(q.view()).is_closed());
    let ring = AudioRingBuffer::with_capacity(2, 48000, 1);
    assert!(!ConsumerView::Audio(ring.view()).is_closed());
}
