use makeshift_instrument::bridge::RingBuffer;
use makeshift_instrument::playback::{Command, DeviceAction, PlaybackControl, PlaybackState};

#[test]
fn drain_fills_shortfall_with_silence() {
    let mut ring: RingBuffer<f32> = RingBuffer::new(256, 0.0);
    for i in 0..100 {
        assert!(ring.push(i as f32 + 1.0));
    }
    let mut out = [9.0f32; 256];
    assert_eq!(ring.drain_into(&mut out), 100);
    for i in 0..100 {
        assert_eq!(out[i], i as f32 + 1.0);
    }
    assert!(out[100..].iter().all(|x| *x == 0.0));
    assert_eq!(out[100..].len(), 156);
    assert_eq!(ring.len(), 0);
}

#[test]
fn drain_takes_only_what_fits() {
    let mut ring: RingBuffer<i32> = RingBuffer::new(4, 0);
    assert!(ring.push_all(&[1, 2, 3]));
    let mut out = [7; 2];
    assert_eq!(ring.drain_into(&mut out), 2);
    assert_eq!(out, [1, 2]);
    assert_eq!(ring.pop(), Some(3));
    assert_eq!(ring.pop(), None);
}

#[test]
fn full_ring_refuses_more() {
    let mut ring: RingBuffer<i32> = RingBuffer::new(3, 0);
    assert!(ring.push(1));
    assert!(ring.push(2));
    assert!(!ring.push_all(&[3, 4]));
    assert!(ring.push(3));
    assert!(!ring.push(4));
    assert_eq!(ring.capacity(), 3);
    assert_eq!(ring.pop(), Some(1));
    assert!(ring.push(4));
    let mut out = [0; 5];
    assert_eq!(ring.drain_into(&mut out), 3);
    assert_eq!(out, [2, 3, 4, 0, 0]);
}

#[test]
fn play_on_fresh_engine_builds_then_starts() {
    let mut ctl = PlaybackControl::new();
    assert_eq!(ctl.state(), PlaybackState::Uninitialized);
    let a = ctl.next_action(Command::Play);
    assert_eq!(a, DeviceAction::BuildStream);
    ctl.complete(a, true);
    assert_eq!(ctl.state(), PlaybackState::Stopped);
    let a = ctl.next_action(Command::Play);
    assert_eq!(a, DeviceAction::Start);
    ctl.complete(a, true);
    assert_eq!(ctl.state(), PlaybackState::Playing);
    assert_eq!(ctl.next_action(Command::Play), DeviceAction::Nothing);
}

#[test]
fn pause_before_play_is_a_no_op() {
    let mut ctl = PlaybackControl::new();
    let a = ctl.next_action(Command::Pause);
    assert_eq!(a, DeviceAction::Nothing);
    ctl.complete(a, true);
    assert_eq!(ctl.state(), PlaybackState::Uninitialized);
}

#[test]
fn pause_and_resume() {
    let mut ctl = PlaybackControl::new();
    ctl.complete(DeviceAction::BuildStream, true);
    ctl.complete(DeviceAction::Start, true);
    let a = ctl.next_action(Command::Pause);
    assert_eq!(a, DeviceAction::Suspend);
    ctl.complete(a, false);
    assert_eq!(ctl.state(), PlaybackState::Playing);
    ctl.complete(a, true);
    assert_eq!(ctl.state(), PlaybackState::Paused);
    assert_eq!(ctl.next_action(Command::Pause), DeviceAction::Nothing);
    assert_eq!(ctl.next_action(Command::Play), DeviceAction::Start);
}
