use player::sync::{elapsed_since, AtomicF64, AtomicInstant, InterruptContext, TaskHandle};
use std::sync::atomic::Ordering;

#[test]
fn elapsed_saturates() {
    assert_eq!(elapsed_since(10, 25), 15);
    assert_eq!(elapsed_since(30, 25), 0);
    assert_eq!(elapsed_since(7, 7), 0);
}

#[test]
fn atomic_instant_elapsed() {
    let a = AtomicInstant::now(1_000);
    assert_eq!(a.elapsed(1_500, Ordering::SeqCst), 500);
    assert_eq!(a.elapsed(900, Ordering::SeqCst), 0);
    a.set_now(2_000, Ordering::SeqCst);
    assert_eq!(a.elapsed(2_250, Ordering::SeqCst), 250);
}

#[test]
fn atomic_f64_holds_bits() {
    let a = AtomicF64::new((-1.0f64).to_bits());
    assert_eq!(f64::from_bits(a.load(Ordering::SeqCst)), -1.0);
    a.store(2.5f64.to_bits(), Ordering::SeqCst);
    assert_eq!(f64::from_bits(a.load(Ordering::SeqCst)), 2.5);
}

#[test]
fn interrupt_is_taken_once() {
    let c = InterruptContext::new();
    assert_eq!(c.take_interrupt(), 0);
    c.interrupt();
    assert_eq!(c.take_interrupt(), 1);
    assert_eq!(c.take_interrupt(), 0);
}

#[test]
fn task_handle_delivers_result() {
    let (mut handle, cancel, sender) = TaskHandle::<u32, String>::new();
    assert!(!cancel.load(Ordering::SeqCst));
    assert!(!handle.poll());
    sender.send(Ok(42)).unwrap();
    assert!(handle.poll());
    // a result held is kept
    sender.send(Ok(7)).unwrap();
    assert!(handle.poll());
    assert_eq!(handle.take(), Ok(42));
}

#[test]
fn task_handle_delivers_error() {
    let (mut handle, _cancel, sender) = TaskHandle::<u32, String>::new();
    sender.send(Err(String::from("failed"))).unwrap();
    assert!(handle.poll());
    assert_eq!(handle.take(), Err(String::from("failed")));
}

use player::sync::AudioRingClock;
use std::sync::atomic::{AtomicBool, AtomicU32, AtomicUsize};
use std::sync::Arc;

#[test]
fn audio_clock_reads_shared_cells() {
    let serial = Arc::new(AtomicU32::new(4));
    let pts = Arc::new(AtomicF64::new(1.5f64.to_bits()));
    let read = Arc::new(AtomicUsize::new(480));
    let last = Arc::new(AtomicInstant::now(100));
    let closed = Arc::new(AtomicBool::new(false));
    let seek = Arc::new(AtomicF64::new((-1.0f64).to_bits()));
    let clock = AudioRingClock::new(serial.clone(), pts, read, last, closed, seek.clone(), 48000, 2);
    assert_eq!(clock.serial(), 4);
    assert_eq!(clock.pts_parts(), (1.5f64.to_bits(), 480));
    assert_eq!(clock.since_last_read(250), 150);
    assert_eq!(clock.format(), (48000, 2));
    assert!(!clock.is_closed());
    assert!(!clock.is_ext());
    clock.set_seek_flag(3.0f64.to_bits());
    assert_eq!(f64::from_bits(seek.load(Ordering::SeqCst)), 3.0);
    serial.store(5, Ordering::SeqCst);
    assert_eq!(clock.serial(), 5);
}

#[test]
fn interrupt_context_clone_shares_the_flag() {
    let c = InterruptContext::new();
    let d = c.clone();
    d.interrupt();
    assert_eq!(c.take_interrupt(), 1);
    assert_eq!(d.take_interrupt(), 0);
}
