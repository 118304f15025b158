//! State and decisions of the graphical interface.

use screenshare::app::{luma_to_rgba, render_qr, watch_request, UiState, QR_SIDE};
use screenshare::capture::Quality;
use screenshare::webrtc_client::sender::ShareInfo;

fn info() -> ShareInfo {
    ShareInfo { viewer_url: "https://x/viewer/A".to_string(), pin: "123456".to_string() }
}

#[test]
fn starts_idle_with_the_default_preset() {
    let s = UiState::new();
    assert!(!s.sharing && !s.creating());
    assert_eq!(s.quality, Quality::High);
    assert_eq!((s.share_url, s.share_pin, s.error), (None, None, None));
    assert_eq!((s.view_code_input.as_str(), s.view_pin_input.as_str()), ("", ""));
}

#[test]
fn one_share_at_a_time_with_a_locked_preset() {
    let mut s = UiState::new();
    s.pick_quality(Quality::Low);
    assert_eq!(s.start_share(), Some(Quality::Low));
    assert!(s.creating());
    assert_eq!(s.start_share(), None);
    s.pick_quality(Quality::Ultra);
    assert_eq!(s.quality, Quality::Low);
    s.share_created(info());
    assert!(!s.creating());
    assert_eq!(s.share_url.as_deref(), Some("https://x/viewer/A"));
    assert_eq!(s.share_pin.as_deref(), Some("123456"));
}

#[test]
fn failure_is_shown() {
    let mut s = UiState::new();
    s.start_share();
    s.share_failed("create session".to_string());
    assert!(!s.creating());
    assert!(s.sharing);
    assert_eq!(s.error.as_deref(), Some("create session"));
}

#[test]
fn qr_code_follows_the_url() {
    let mut s = UiState::new();
    assert_eq!(s.stale_qr(""), None);
    s.share_created(info());
    assert_eq!(s.stale_qr(""), Some("https://x/viewer/A"));
    assert_eq!(s.stale_qr("https://x/viewer/A"), None);
}

#[test]
fn inputs_are_trimmed_and_checked() {
    let mut s = UiState::new();
    assert!(s.watch().is_none());
    s.set_inputs(" \u{3000}abcd1234\n".to_string(), "\t123456 ".to_string());
    let w = s.watch().unwrap();
    assert_eq!((w.code.as_str(), w.pin.as_str()), ("ABCD1234", "123456"));
    s.set_inputs("abcd".to_string(), "12345".to_string());
    assert!(s.watch().is_none());
    s.set_inputs("  ".to_string(), "123456".to_string());
    assert!(s.watch().is_none());
    s.set_inputs("a b".to_string(), "123456".to_string());
    assert_eq!(s.watch().unwrap().code, "A B");
}

#[test]
fn prepared_inputs_are_checked() {
    let ask = |code: &str, pin: &str| watch_request(code.to_string(), pin.to_string()).is_some();
    assert!(ask("A", "000000"));
    assert!(!ask("", "000000"));
    assert!(!ask("A", "00000"));
    assert!(!ask("A", "00000x"));
}

#[test]
fn grey_becomes_opaque_rgba() {
    assert_eq!(luma_to_rgba(&[0, 255, 7]), vec![0, 0, 0, 255, 255, 255, 255, 255, 7, 7, 7, 255]);
    assert!(luma_to_rgba(&[]).is_empty());
}

#[test]
fn qr_code_is_drawn_in_black_and_white() {
    let p = render_qr("https://x/viewer/ABCD1234").unwrap();
    assert!(p.width >= QR_SIDE && p.width == p.height);
    assert_eq!(p.rgba.len(), (4 * p.width * p.height) as usize);
    let mut dark = 0;
    for px in p.rgba.chunks_exact(4) {
        assert!(px == [0, 0, 0, 255] || px == [255, 255, 255, 255]);
        if px[0] == 0 {
            dark += 1;
        }
    }
    assert!(dark > 0);
    // Every pixel has the colour of its module, inside a margin of four modules.
    let code = qrcode::QrCode::new("https://x/viewer/ABCD1234").unwrap();
    let modules = code.width();
    let total = modules as u32 + 8;
    let unit = (QR_SIDE + total - 1) / total;
    assert_eq!(p.width, total * unit);
    for y in 0..p.height {
        for x in 0..p.width {
            let (mx, my) = ((x / unit) as usize, (y / unit) as usize);
            let inside = (4..modules + 4).contains(&mx) && (4..modules + 4).contains(&my);
            let dark = inside && code[(mx - 4, my - 4)] == qrcode::Color::Dark;
            let at = (4 * (y * p.width + x)) as usize;
            assert_eq!(p.rgba[at], if dark { 0 } else { 255 }, "{x},{y}");
        }
    }
    // Another text gives another code.
    assert!(render_qr("https://x/viewer/ABCD1235").unwrap().rgba != p.rgba);
}

#[test]
fn text_too_long_for_a_qr_code_gives_none() {
    assert!(render_qr(&"x".repeat(3_000)).is_none());
}
