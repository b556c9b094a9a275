use audio_visuals::frame::{DriverAction, FrameDriver};
use audio_visuals::listener::{on_receive, ListenerAction, ReceiveOutcome};
use audio_visuals::visuals::{VisualEngine, INTENSITY_ONE, INTENSITY_START, INTENSITY_STEP};
use audio_visuals::wire::RECV_BUFFER_LEN;
use rosc::{OscMessage, OscPacket};
use std::collections::VecDeque;

fn message(addr: &str) -> OscPacket {
    OscPacket::Message(OscMessage {
        addr: addr.to_string(),
        args: vec![],
    })
}

#[test]
fn new_engine_starts_at_one_half() {
    let engine = VisualEngine::new();
    assert_eq!(engine.intensity, 500_000);
    assert_eq!(INTENSITY_START * 2, INTENSITY_ONE);
    assert_eq!(engine.render(), 500_000);
}

#[test]
fn message_update_wraps_around_instead_of_clamping() {
    let mut engine = VisualEngine { intensity: 950_000 };
    engine.update(Some(message("/level")));
    assert_eq!(engine.intensity, 50_000);
    assert!(engine.intensity < INTENSITY_ONE);
}

#[test]
fn message_update_adds_one_tenth() {
    let mut engine = VisualEngine::new();
    engine.update(Some(message("/level")));
    assert_eq!(engine.intensity, 600_000);
    assert_eq!(INTENSITY_STEP * 10, INTENSITY_ONE);
}

#[test]
fn update_to_exactly_one_wraps_to_zero() {
    let mut engine = VisualEngine { intensity: 900_000 };
    engine.update(Some(message("/level")));
    assert_eq!(engine.intensity, 0);
}

#[test]
fn update_without_message_changes_nothing() {
    let mut engine = VisualEngine { intensity: 123_456 };
    engine.update(None);
    assert_eq!(engine.intensity, 123_456);
}

#[test]
fn tick_applies_every_pending_message_then_submits() {
    let mut driver = FrameDriver::new(VisualEngine::new());
    let pending: VecDeque<OscPacket> =
        vec![message("/a"), message("/b"), message("/c")].into_iter().collect();
    assert_eq!(driver.on_work_ready(pending), DriverAction::SubmitFrame);
    assert_eq!(driver.engine.intensity, 800_000);
}

#[test]
fn tick_wraps_across_many_messages() {
    let mut driver = FrameDriver::new(VisualEngine { intensity: 950_000 });
    let pending: VecDeque<OscPacket> = (0..12).map(|_| message("/x")).collect();
    assert_eq!(driver.on_work_ready(pending), DriverAction::SubmitFrame);
    assert_eq!(driver.engine.intensity, 150_000);
}

#[test]
fn tick_without_messages_still_submits_a_frame() {
    let mut driver = FrameDriver::new(VisualEngine::new());
    assert_eq!(driver.on_work_ready(VecDeque::new()), DriverAction::SubmitFrame);
    assert_eq!(driver.engine.intensity, 500_000);
}

#[test]
fn close_ends_the_loop_and_no_frame_follows() {
    let mut driver = FrameDriver::new(VisualEngine::new());
    assert_eq!(driver.on_close_requested(), DriverAction::Exit);
    assert!(driver.closed);
    let pending: VecDeque<OscPacket> = vec![message("/late")].into_iter().collect();
    assert_eq!(driver.on_work_ready(pending), DriverAction::Exit);
    assert_eq!(driver.engine.intensity, 500_000);
}

#[test]
fn one_received_datagram_gives_one_update_on_the_next_tick() {
    let bytes = rosc::encoder::encode(&message("/test")).unwrap();
    let mut buf = vec![0u8; RECV_BUFFER_LEN];
    buf[..bytes.len()].copy_from_slice(&bytes);
    let mut pending = VecDeque::new();
    match on_receive(&buf, ReceiveOutcome::Datagram(bytes.len())) {
        ListenerAction::Forward(packet) => pending.push_back(packet),
        other => panic!("unexpected action {:?}", other),
    }
    let mut driver = FrameDriver::new(VisualEngine::new());
    assert_eq!(driver.on_work_ready(pending), DriverAction::SubmitFrame);
    assert_eq!(driver.engine.intensity, 600_000);
}
