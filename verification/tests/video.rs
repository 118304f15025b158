//! Preparation of captured video.

use screenshare::capture::video::{
    display_capture_size, downscale_bgra, frame_interval_us, pick_display, plan_downscale,
    preflight_step, prepare_padded_surface, prepare_surface, probe_report, republish,
    strip_row_padding, CaptureRefusal, FilterOutcome, FrameFilter, Pacer, Preflight, Probe,
    VideoFrame,
};
use screenshare::capture::{Quality, Resolution};
use screenshare::webrtc_client::codec::bgra_to_i420_into;
use screenshare::webrtc_client::sender::{video_packet, EncoderConfig, VideoPump};

#[test]
fn downscale_of_nothing_is_empty() {
    assert!(downscale_bgra(&[], 0, 0, 0, 0).is_empty());
    assert!(downscale_bgra(&[1, 2, 3, 4], 1, 1, 0, 5).is_empty());
    assert!(downscale_bgra(&[1, 2, 3, 4], 1, 1, 5, 0).is_empty());
}

#[test]
fn downscale_copies_whole_pixels() {
    let src: Vec<u8> = (0..6 * 4 * 4).map(|i| i as u8).collect();
    let dst = downscale_bgra(&src, 6, 4, 3, 2);
    // Columns 1, 3, 5 of rows 1 and 3.
    let mut expected = Vec::new();
    for row in [1usize, 3] {
        for col in [1usize, 3, 5] {
            let at = (row * 6 + col) * 4;
            expected.extend_from_slice(&src[at..at + 4]);
        }
    }
    assert_eq!(dst, expected);
}

#[test]
fn captures_are_reduced_to_even_sizes_in_proportion() {
    assert_eq!(plan_downscale(1280, 1920, 1080), Some((1280, 720)));
    assert_eq!(plan_downscale(1281, 1920, 1080), Some((1280, 720)));
    assert_eq!(plan_downscale(1920, 3440, 1440), Some((1920, 802)));
    // Not smaller, no target, or too small to encode.
    assert_eq!(plan_downscale(1920, 1920, 1080), None);
    assert_eq!(plan_downscale(0, 1920, 1080), None);
    assert_eq!(plan_downscale(14, 1920, 1080), None);
    assert_eq!(plan_downscale(16, 1920, 1080), None);
    assert_eq!(plan_downscale(640, 10_000, 17), None);
    assert_eq!(plan_downscale(640, 0, 0), None);
    assert_eq!(plan_downscale(u32::MAX, u32::MAX, u32::MAX), Some((u32::MAX - 1, u32::MAX - 1)));
}

#[test]
fn surfaces_become_tight_frames() {
    let raw: Vec<u8> = (0..64 * 64 * 4).map(|i| (i % 251) as u8).collect();
    let f = prepare_surface(&raw, 64, 64, 32, 9);
    assert_eq!((f.width, f.height, f.stride, f.timestamp_us), (32, 32, 128, 9));
    assert_eq!(f.data, downscale_bgra(&raw, 64, 64, 32, 32));
    let f = prepare_surface(&raw, 64, 64, 0, 9);
    assert_eq!((f.width, f.height, f.stride), (64, 64, 256));
    assert_eq!(f.data, raw);
}

#[test]
fn row_padding_is_stripped() {
    let raw: Vec<u8> = (0..30).collect();
    assert_eq!(strip_row_padding(&raw, 2, 3, 10), vec![
        0, 1, 2, 3, 4, 5, 6, 7, 10, 11, 12, 13, 14, 15, 16, 17, 20, 21, 22, 23, 24, 25, 26, 27
    ]);
    assert_eq!(strip_row_padding(&raw, 2, 3, 8), raw[..24].to_vec());
    assert!(strip_row_padding(&raw, 0, 3, 10).is_empty());
    assert!(strip_row_padding(&raw, 3, 0, 10).is_empty());
}

#[test]
fn padded_surfaces_become_tight_frames() {
    let raw: Vec<u8> = (0..28).collect();
    let f = prepare_padded_surface(&raw, 2, 3, 10, 4).unwrap();
    assert_eq!((f.width, f.height, f.stride, f.timestamp_us), (2, 3, 8, 4));
    assert_eq!(f.data.len(), 24);
    assert!(prepare_padded_surface(&raw, 0, 3, 10, 4).is_none());
    assert!(prepare_padded_surface(&raw, 2, 0, 10, 4).is_none());
    assert!(prepare_padded_surface(&[], 2, 3, 10, 4).is_none());
}

#[test]
fn empty_frames_are_filtered_with_one_warning() {
    let mut filter = FrameFilter::new();
    let mut warnings = Vec::new();
    for i in 0..10 {
        match filter.offer(0, 0, vec![], i) {
            FilterOutcome::Empty { warn } => warnings.push(warn),
            FilterOutcome::Frame(_) => panic!("an empty frame came through"),
        }
    }
    assert_eq!(warnings.iter().position(|w| *w), Some(4));
    assert_eq!(warnings.iter().filter(|w| **w).count(), 1);
    match filter.offer(2, 1, vec![5; 8], 77) {
        FilterOutcome::Frame(f) => {
            assert_eq!((f.width, f.height, f.stride, f.timestamp_us), (2, 1, 8, 77));
            assert_eq!(f.data, vec![5; 8]);
        }
        FilterOutcome::Empty { .. } => panic!("a good frame was filtered"),
    }
    assert_eq!(filter.empties_in_a_row, 0);
    assert!(matches!(filter.offer(2, 0, vec![5; 8], 0), FilterOutcome::Empty { warn: false }));
    assert!(matches!(filter.offer(0, 2, vec![5; 8], 0), FilterOutcome::Empty { warn: false }));
    assert!(matches!(filter.offer(2, 2, vec![], 0), FilterOutcome::Empty { warn: false }));
    filter.empties_in_a_row = u32::MAX;
    assert!(matches!(filter.offer(0, 0, vec![], 0), FilterOutcome::Empty { warn: false }));
    assert_eq!(filter.empties_in_a_row, u32::MAX);
}

fn frame() -> VideoFrame {
    VideoFrame { width: 2, height: 1, stride: 8, data: vec![1, 2, 3, 4, 5, 6, 7, 8], timestamp_us: 3 }
}

#[test]
fn latest_frame_is_republished_with_a_new_stamp() {
    assert!(republish(&None, 5).is_none());
    let last = Some(frame());
    let f = republish(&last, 5).unwrap();
    assert_eq!((f.width, f.height, f.stride, f.timestamp_us), (2, 1, 8, 5));
    assert_eq!(f.data, frame().data);
}

#[test]
fn pacing_keeps_its_distance() {
    assert_eq!(frame_interval_us(30), 33_333);
    assert_eq!(frame_interval_us(60), 16_666);
    assert_eq!(frame_interval_us(0), 1_000_000);
    let mut p = Pacer::new(1_000, 30);
    assert_eq!(p.interval_ns, 33_333_000);
    assert_eq!(p.tick(1_000), 0);
    assert_eq!(p.tick(1_000 + 3_000_000), 30_333_000);
    // Late: no sleep, and the ticks after it are not moved.
    assert_eq!(p.tick(500_000_000), 0);
    assert_eq!(p.next_ns, 1_000 + 3 * 33_333_000);
}

#[test]
fn main_display_is_picked() {
    assert_eq!(pick_display(&[], 7), None);
    assert_eq!(pick_display(&[3, 7, 9, 7], 7), Some(1));
    assert_eq!(pick_display(&[3, 9], 7), Some(0));
}

#[test]
fn displays_are_captured_at_even_sizes() {
    assert_eq!(display_capture_size(2560, 1440, Resolution::P1080), (1920, 1080));
    assert_eq!(display_capture_size(1280, 800, Resolution::P1080), (1280, 800));
    assert_eq!(display_capture_size(1511, 983, Resolution::Native), (1510, 982));
    assert_eq!(display_capture_size(1512, 982, Resolution::P720), (1280, 830));
    assert_eq!(display_capture_size(0, 0, Resolution::Native), (0, 2));
    assert_eq!(display_capture_size(10_000, 1, Resolution::P480), (640, 2));
}

#[test]
fn preflight_asks_in_order() {
    assert_eq!(preflight_step(Preflight::Supported, true), Ok(Preflight::Permitted));
    assert_eq!(preflight_step(Preflight::Permitted, true), Ok(Preflight::HasDisplay));
    assert_eq!(preflight_step(Preflight::Permitted, false), Ok(Preflight::PermissionGranted));
    assert_eq!(preflight_step(Preflight::PermissionGranted, true), Ok(Preflight::HasDisplay));
    assert_eq!(preflight_step(Preflight::HasDisplay, true), Ok(Preflight::Ready));
    assert_eq!(preflight_step(Preflight::Ready, false), Ok(Preflight::Ready));
    let refusals = [
        (Preflight::Supported, CaptureRefusal::NotSupported),
        (Preflight::PermissionGranted, CaptureRefusal::PermissionDenied),
        (Preflight::HasDisplay, CaptureRefusal::NoDisplay),
    ];
    for (question, refusal) in refusals {
        assert_eq!(preflight_step(question, false), Err(refusal));
    }
    assert_eq!(
        CaptureRefusal::NotSupported.to_string(),
        "screen capture is not supported on this platform/version"
    );
    assert_eq!(CaptureRefusal::PermissionDenied.to_string(), "screen recording permission denied");
    assert_eq!(
        CaptureRefusal::NoDisplay.to_string(),
        "no capturable displays found — screen capture cannot start"
    );
}

#[test]
fn probe_reports_the_first_frame() {
    assert_eq!(
        probe_report(&Probe::Frame(frame())),
        Ok("OK: first frame 2x1 stride=8 (8 bytes)".to_string())
    );
    assert_eq!(
        probe_report(&Probe::Closed),
        Err("capture channel closed before delivering a frame".to_string())
    );
    assert_eq!(
        probe_report(&Probe::TimedOut),
        Err("timed out after 5s with no frame — capture is not producing data".to_string())
    );
}

#[test]
fn unusable_sizes_are_dropped() {
    let mut p = VideoPump::new(Quality::High);
    assert_eq!(p.check(1920, 1080), Ok(()));
    assert_eq!(p.check(16, 16), Ok(()));
    assert_eq!(p.check(14, 16), Err(true));
    assert_eq!(p.check(16, 15), Err(true));
    assert_eq!(p.check(17, 16), Err(false));
    p.frames_seen = 29;
    assert_eq!(p.check(16, 0), Err(true));
    assert_eq!(p.check(0, 16), Err(false));
}

#[test]
fn encoder_is_restarted_when_something_changed() {
    let mut p = VideoPump::new(Quality::High);
    let first = EncoderConfig { width: 64, height: 32, bitrate_kbps: 4_000 };
    assert_eq!(p.prepare_encoder(64, 32, 40_000, false), Some(first));
    assert_eq!(p.prepare_encoder(64, 32, 40_000, false), None);
    // A keyframe is forced by starting over.
    assert_eq!(p.prepare_encoder(64, 32, 40_000, true), Some(first));
    // A new size, a lower target.
    let second = EncoderConfig { width: 64, height: 64, bitrate_kbps: 4_000 };
    assert_eq!(p.prepare_encoder(64, 64, 40_000, false), Some(second));
    let third = EncoderConfig { width: 64, height: 64, bitrate_kbps: 900 };
    assert_eq!(p.prepare_encoder(64, 64, 900, false), Some(third));
    assert_eq!(p.prepare_encoder(64, 64, 900, false), None);
}

#[test]
fn presentation_time_starts_at_zero() {
    let mut p = VideoPump::new(Quality::Low);
    assert_eq!(p.presentation_ms(5_000_000), 0);
    assert_eq!(p.presentation_ms(5_033_999), 33);
    assert_eq!(p.base_us, Some(5_000_000));
}

#[test]
fn video_packets_carry_the_frame_time() {
    let f = video_packet(vec![1, 2], true, 99);
    assert_eq!((f.stream, f.keyframe, f.timestamp_us), (0, true, 99));
    assert_eq!(f.data, vec![1, 2]);
}

#[test]
fn labels_name_the_presets() {
    assert_eq!(Quality::Low.label(), "Low (720p · 15 fps · 1.2 Mbps)");
    assert_eq!(Quality::Medium.label(), "Medium (1080p · 24 fps · 2.5 Mbps)");
    assert_eq!(Quality::High.label(), "High (1080p · 30 fps · 4 Mbps)");
    assert_eq!(Quality::Ultra.label(), "Ultra (1080p · 60 fps · 8 Mbps)");
    assert_eq!(Quality::Original.label(), "Original (native · 30 fps · 8 Mbps)");
}

#[test]
fn capture_bitrate_is_exact() {
    assert_eq!(Quality::Original.bitrate_kbps_for_capture(3840, 2160), 24_883);
    assert_eq!(Quality::Original.bitrate_kbps_for_capture(0, 0), 8_000);
    assert_eq!(Quality::Original.bitrate_kbps_for_capture(u32::MAX, u32::MAX), 40_000);
    assert_eq!(Quality::Low.bitrate_kbps_for_capture(u32::MAX, u32::MAX), 1_200);
}

#[test]
fn reduced_captures_are_converted() {
    let raw = vec![90u8; 100 * 80 * 4];
    let f = prepare_surface(&raw, 100, 80, 51, 0);
    assert_eq!((f.width, f.height), (50, 40));
    assert_eq!(VideoPump::new(Quality::Low).check(f.width, f.height), Ok(()));
    let mut out = Vec::new();
    assert_eq!(bgra_to_i420_into(&f.data, f.width, f.height, f.stride, &mut out), Ok(()));
    assert_eq!(out.len(), 50 * 40 * 3 / 2);
}
