use player::decoding::{choose_pixel_format, receive_outcome, send_packet_serial, ReceiveOutcome, ERROR_AGAIN, PIX_FMT_NONE};

#[test]
fn pixel_format_choice() {
    assert_eq!(choose_pixel_format(&vec![0, 23, 117, PIX_FMT_NONE], 117), 117);
    assert_eq!(choose_pixel_format(&vec![0, 23, PIX_FMT_NONE, 117], 117), PIX_FMT_NONE);
    assert_eq!(choose_pixel_format(&vec![PIX_FMT_NONE], 0), PIX_FMT_NONE);
}

#[test]
fn receive_results() {
    assert_eq!(receive_outcome(0), ReceiveOutcome::Frame);
    assert_eq!(receive_outcome(ERROR_AGAIN), ReceiveOutcome::NeedsInput);
    // the end of the stream is an error code of its own
    let eof = -(i32::from_le_bytes(*b"EOF "));
    assert_eq!(receive_outcome(eof), ReceiveOutcome::Failed(eof));
    assert_eq!(receive_outcome(-22), ReceiveOutcome::Failed(-22));
}

#[test]
fn decoder_flush_on_new_serial() {
    assert_eq!(send_packet_serial(None, 3), (true, Some(3)));
    assert_eq!(send_packet_serial(Some(3), 3), (false, Some(3)));
    assert_eq!(send_packet_serial(Some(2), 3), (true, Some(3)));
}
