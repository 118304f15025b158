//! Relations between presets, and between frames on the wire.

use screenshare::capture::Quality;
use screenshare::fallback::frame_to_bytes;
use screenshare::webrtc_client::sender::EncodedFrame;

#[test]
fn lower_presets_shrink_together() {
    let ladder = [Quality::Low, Quality::Medium, Quality::High, Quality::Ultra];
    for pair in ladder.windows(2) {
        assert!(pair[0].fps() < pair[1].fps());
        assert!(pair[0].bitrate_kbps() < pair[1].bitrate_kbps());
        assert!(pair[0].resolution().width() <= pair[1].resolution().width());
    }
}

#[test]
fn more_pixels_never_get_less() {
    let sizes = [(1280, 720), (1920, 1080), (2560, 1440), (3840, 2160), (5120, 2880), (7680, 4320)];
    for q in [Quality::Low, Quality::Original] {
        let rates: Vec<u32> = sizes.iter().map(|s| q.bitrate_kbps_for_capture(s.0, s.1)).collect();
        for pair in rates.windows(2) {
            assert!(pair[0] <= pair[1]);
        }
        for rate in rates {
            assert!(q.bitrate_kbps() <= rate && rate <= 40_000);
        }
    }
}

#[test]
fn different_frames_differ_on_the_wire() {
    let base = || EncodedFrame { stream: 0, keyframe: false, timestamp_us: 1, data: vec![1, 2] };
    let frames = [
        base(),
        EncodedFrame { stream: 1, ..base() },
        EncodedFrame { keyframe: true, ..base() },
        EncodedFrame { timestamp_us: 256, ..base() },
        EncodedFrame { data: vec![1], ..base() },
        EncodedFrame { data: vec![2, 1], ..base() },
    ];
    let bytes: Vec<Vec<u8>> = frames.iter().map(frame_to_bytes).collect();
    for i in 0..bytes.len() {
        for j in 0..i {
            assert!(bytes[i] != bytes[j], "{i} and {j}");
        }
    }
}
