//! Decisions of the relay loops.

use screenshare::fallback::congestion::{Controller, TCP_SEND_BUFFER_BYTES};
use screenshare::fallback::relay::{
    keyframe_requested, relay_config, viewer_step, RelayAction, RelayCmd, RelayEvent, RelaySender,
    ViewerAction, ViewerMessage, FRAME_AGE_DROP_MS,
};
use screenshare::fallback::{frame_to_bytes, parse_frame};
use screenshare::webrtc_client::sender::EncodedFrame;

const MS: u128 = 1_000_000;

fn video(keyframe: bool, timestamp_us: u64, now_ns: u128) -> RelayEvent {
    RelayEvent::Video {
        frame: EncodedFrame { stream: 0, keyframe, timestamp_us, data: vec![7, 8] },
        now_ns,
    }
}

fn audio() -> RelayEvent {
    RelayEvent::Audio {
        frame: EncodedFrame { stream: 1, keyframe: false, timestamp_us: 5, data: vec![9] },
    }
}

fn name(action: &RelayAction) -> &'static str {
    match action {
        RelayAction::Continue => "continue",
        RelayAction::RequestKeyframe => "keyframe",
        RelayAction::Send(_) => "send",
        RelayAction::Stop => "stop",
    }
}

#[test]
fn send_buffer_cap_is_64_kib() {
    assert_eq!(TCP_SEND_BUFFER_BYTES, 64 * 1024);
}

#[test]
fn config_announces_vp8_and_opus() {
    let c = relay_config();
    assert_eq!((c.v, c.codec.as_str()), (1, "vp8"));
    assert_eq!((c.audio.codec.as_str(), c.audio.rate, c.audio.channels), ("opus", 48_000, 2));
}

#[test]
fn deltas_wait_for_a_keyframe() {
    let mut s = RelaySender::new();
    assert_eq!(name(&s.step(&video(false, 0, 0))), "continue");
    assert!(s.anchor.is_none(), "a frame held back does not stamp the anchor");
    assert_eq!(name(&s.step(&video(true, 33_000, 40 * MS))), "send");
    assert_eq!(s.anchor, Some((40 * MS, 33_000)));
    assert_eq!(name(&s.step(&video(false, 66_000, 80 * MS))), "send");
}

#[test]
fn decodable_fresh_frames_are_all_sent() {
    let mut s = RelaySender::new();
    assert_eq!(name(&s.step(&video(true, 0, 0))), "send");
    // Whatever else goes on, deltas keep going as long as no video is lost.
    for n in 1..50u64 {
        let between = match n % 5 {
            0 => audio(),
            1 => RelayEvent::AudioLagged { missed: 3 },
            2 => RelayEvent::Sent { bytes: 900, elapsed_ns: 400 * MS },
            3 => RelayEvent::Control(Some(RelayCmd { v: None, cmd: Some("keyframe".into()) })),
            _ => RelayEvent::OtherMessage,
        };
        s.step(&between);
        let now = n as u128 * 33 * MS + (FRAME_AGE_DROP_MS as u128 - 1) * MS;
        assert_eq!(name(&s.step(&video(false, n * 33_000, now))), "send", "frame {n}");
    }
}

#[test]
fn taking_the_window_changes_no_decision() {
    let mut plain = RelaySender::new();
    let mut taken = RelaySender::new();
    let limit = FRAME_AGE_DROP_MS as u128 * MS;
    let events = [
        video(false, 0, 0),
        video(true, 1_000, MS),
        RelayEvent::Sent { bytes: 10, elapsed_ns: 900 * MS },
        video(false, 34_000, 40 * MS),
        audio(),
        RelayEvent::VideoLagged { missed: 4 },
        video(false, 67_000, 70 * MS),
        video(true, 67_000, 67 * MS + limit),
        video(true, 500_000, 500 * MS),
        RelayEvent::AudioClosed,
        audio(),
        video(false, 533_000, 540 * MS),
        RelayEvent::VideoClosed,
    ];
    let mut lost = 0;
    for event in &events {
        lost += taken.take_window().drops;
        assert_eq!(name(&plain.step(event)), name(&taken.step(event)));
        assert_eq!(plain.seen_keyframe, taken.seen_keyframe);
        assert_eq!(plain.audio_open, taken.audio_open);
        assert_eq!(plain.anchor, taken.anchor);
    }
    assert_eq!((plain.window.drops, lost), (5, 5));
}

#[test]
fn a_sent_frame_is_in_wire_format() {
    let mut s = RelaySender::new();
    match s.step(&video(true, 33_000, 0)) {
        RelayAction::Send(bytes) => {
            let f = parse_frame(&bytes).unwrap();
            assert_eq!((f.stream, f.keyframe, f.timestamp_us), (0, true, 33_000));
            assert_eq!(f.data, vec![7, 8]);
        }
        other => panic!("expected a send, got {}", name(&other)),
    }
}

#[test]
fn stale_frames_are_dropped_keyframes_included() {
    let mut s = RelaySender::new();
    s.step(&video(true, 0, 0));
    let limit = FRAME_AGE_DROP_MS as u128 * MS;
    // One nanosecond short of the limit is still fresh.
    assert_eq!(name(&s.step(&video(false, 1_000, MS + limit - 1))), "send");
    assert_eq!(name(&s.step(&video(false, 1_000, MS + limit))), "keyframe");
    assert!(!s.seen_keyframe);
    assert_eq!(s.window.drops, 1);
    // Delta frames are held back now, and a stale keyframe is dropped too.
    assert_eq!(name(&s.step(&video(false, 200_000, 200 * MS))), "continue");
    assert_eq!(name(&s.step(&video(true, 1_000, MS + limit))), "keyframe");
    assert_eq!(s.window.drops, 2);
    assert!(!s.seen_keyframe);
    // A fresh keyframe opens the way again.
    assert_eq!(name(&s.step(&video(true, 300_000, 300 * MS))), "send");
    assert_eq!(s.anchor, Some((0, 0)), "the anchor is stamped once");
}

#[test]
fn timestamps_before_the_anchor_count_as_the_anchor() {
    let mut s = RelaySender::new();
    s.step(&video(true, 50_000, 10 * MS));
    assert_eq!(name(&s.step(&video(false, 1, 109 * MS))), "send");
    assert_eq!(name(&s.step(&video(false, 1, 110 * MS))), "keyframe");
}

#[test]
fn lag_closes_the_way_and_asks_for_a_keyframe() {
    let mut s = RelaySender::new();
    s.step(&video(true, 0, 0));
    assert_eq!(name(&s.step(&RelayEvent::VideoLagged { missed: 12 })), "keyframe");
    assert_eq!(s.window.drops, 12);
    assert_eq!(name(&s.step(&video(false, 1_000, MS))), "continue");
    assert_eq!(name(&s.step(&video(true, 2_000, 2 * MS))), "send");
}

#[test]
fn huge_lag_is_capped() {
    let mut s = RelaySender::new();
    s.step(&RelayEvent::VideoLagged { missed: u64::MAX });
    assert_eq!(s.window.drops, u32::MAX);
}

#[test]
fn audio_is_best_effort() {
    let mut s = RelaySender::new();
    match s.step(&audio()) {
        RelayAction::Send(bytes) => assert_eq!(bytes, vec![1, 0, 5, 0, 0, 0, 0, 0, 0, 0, 9]),
        other => panic!("expected a send, got {}", name(&other)),
    }
    assert_eq!(name(&s.step(&RelayEvent::AudioLagged { missed: 3 })), "continue");
    assert_eq!(s.window.drops, 0);
    assert_eq!(name(&s.step(&RelayEvent::AudioClosed)), "continue");
    assert!(!s.audio_open);
    assert_eq!(name(&s.step(&audio())), "continue");
    // Video goes on.
    assert_eq!(name(&s.step(&video(true, 0, 0))), "send");
}

#[test]
fn loop_ends_with_the_connection_or_with_video() {
    let ends = [
        RelayEvent::ServerClosed,
        RelayEvent::ReadFailed,
        RelayEvent::StreamEnded,
        RelayEvent::VideoClosed,
        RelayEvent::SendFailed,
    ];
    for e in ends.iter() {
        assert_eq!(name(&RelaySender::new().step(e)), "stop");
    }
    assert_eq!(name(&RelaySender::new().step(&RelayEvent::OtherMessage)), "continue");
}

#[test]
fn sends_are_recorded_for_the_controller() {
    let mut s = RelaySender::new();
    let sent = RelayEvent::Sent { bytes: 1_200, elapsed_ns: 100 * MS };
    assert_eq!(name(&s.step(&sent)), "continue");
    let w = s.take_window();
    assert_eq!((w.bytes, w.drops, w.backpressure), (1_200, 0, true));
    assert_eq!((s.window.bytes, s.window.backpressure), (0, false));
}

#[test]
fn only_the_keyframe_command_is_known() {
    let cmd = |name: Option<&str>| {
        Some(RelayCmd { v: Some(1), cmd: name.map(|n| n.to_string()) })
    };
    assert!(keyframe_requested(&cmd(Some("keyframe"))));
    assert!(!keyframe_requested(&cmd(Some("Keyframe"))));
    assert!(!keyframe_requested(&cmd(Some("bitrate"))));
    assert!(!keyframe_requested(&cmd(None)));
    assert!(!keyframe_requested(&None));
    let mut s = RelaySender::new();
    assert_eq!(name(&s.step(&RelayEvent::Control(cmd(Some("keyframe"))))), "keyframe");
    assert_eq!(name(&s.step(&RelayEvent::Control(None))), "continue");
}

#[test]
fn viewer_decodes_video_only() {
    let frame = |stream: u8| {
        frame_to_bytes(&EncodedFrame { stream, keyframe: true, timestamp_us: 1, data: vec![4, 5] })
    };
    match viewer_step(&ViewerMessage::Binary(frame(0))) {
        ViewerAction::Decode { data, keyframe } => {
            assert_eq!(data, vec![4, 5]);
            assert!(keyframe);
        }
        _ => panic!("expected a frame to decode"),
    }
    assert!(matches!(viewer_step(&ViewerMessage::Binary(frame(1))), ViewerAction::Continue));
    assert!(matches!(viewer_step(&ViewerMessage::Binary(vec![0; 9])), ViewerAction::Continue));
    assert!(matches!(viewer_step(&ViewerMessage::Text), ViewerAction::Continue));
    assert!(matches!(viewer_step(&ViewerMessage::Other), ViewerAction::Continue));
    assert!(matches!(viewer_step(&ViewerMessage::Close), ViewerAction::Stop));
}

#[test]
fn only_the_lowest_flag_bit_counts() {
    let mut bytes = vec![0u8; 10];
    bytes[1] = 0xfe;
    assert!(!parse_frame(&bytes).unwrap().keyframe);
    bytes[1] = 0xff;
    let f = parse_frame(&bytes).unwrap();
    assert!(f.keyframe);
    let again = EncodedFrame {
        stream: f.stream,
        keyframe: f.keyframe,
        timestamp_us: f.timestamp_us,
        data: f.data,
    };
    assert_eq!(frame_to_bytes(&again)[1], 1);
}

#[test]
fn loss_and_slow_sends_lower_the_bitrate() {
    let mut s = RelaySender::new();
    let mut c = Controller::new(8_000, 0);
    s.step(&RelayEvent::VideoLagged { missed: 1 });
    s.step(&RelayEvent::Sent { bytes: 1_000_000, elapsed_ns: 0 });
    assert_eq!(c.step(s.take_window(), 4_000, 0), 3_000);
    s.step(&RelayEvent::Sent { bytes: 1_000_000, elapsed_ns: 100 * MS });
    s.step(&RelayEvent::Sent { bytes: 0, elapsed_ns: 0 });
    assert_eq!(c.step(s.take_window(), 4_000, 0), 3_000);
    assert_eq!(c.step(s.take_window(), 4_000, 0), 4_000);
}
