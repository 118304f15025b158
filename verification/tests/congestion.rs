//! The bandwidth controller of the relay.

use screenshare::fallback::congestion::{
    Controller, LinkWindow, AIMD_INCREASE_KBPS, HEALTHY_HOLD_MS, MIN_BITRATE_KBPS,
};

const MS: u128 = 1_000_000;

fn window(bytes: u64, drops: u32, backpressure: bool) -> LinkWindow {
    LinkWindow { bytes, drops, backpressure }
}

#[test]
fn fresh_window_is_empty() {
    let w = LinkWindow::new();
    assert_eq!((w.bytes, w.drops, w.backpressure), (0, 0, false));
}

#[test]
fn window_records_sends_and_drops() {
    let mut w = LinkWindow::new();
    w.record_send(1_000, 99 * MS);
    assert!(!w.backpressure);
    w.record_send(500, 100 * MS);
    assert!(w.backpressure);
    w.record_send(1, 0);
    assert!(w.backpressure, "one slow send marks the whole window");
    w.record_drops(3);
    assert_eq!((w.bytes, w.drops), (1_501, 3));
    let taken = w.take();
    assert_eq!((taken.bytes, taken.drops, taken.backpressure), (1_501, 3, true));
    assert_eq!((w.bytes, w.drops, w.backpressure), (0, 0, false));
}

#[test]
fn window_counters_wrap() {
    let mut w = window(u64::MAX, u32::MAX, false);
    w.record_send(2, 0);
    w.record_drops(1);
    assert_eq!((w.bytes, w.drops), (1, 0));
}

#[test]
fn congestion_cuts_by_a_quarter() {
    let mut c = Controller::new(8_000, 0);
    // 1 MB in half a second is 16 Mbps, so the measured bound does not bite.
    assert_eq!(c.step(window(1_000_000, 0, true), 4_000, MS), 3_000);
    assert_eq!(c.step(window(1_000_000, 1, false), 4_001, MS), 3_000);
    assert_eq!(c.last_unhealthy_ns, MS);
}

#[test]
fn congestion_goes_by_what_the_link_carried() {
    let mut c = Controller::new(8_000, 0);
    // 62 500 bytes in half a second are 1000 kbps.
    assert_eq!(c.step(window(62_500, 2, false), 4_000, 0), 900);
}

#[test]
fn congestion_never_goes_below_the_floor() {
    let mut c = Controller::new(8_000, 0);
    assert_eq!(c.step(window(0, 1, true), 4_000, 0), MIN_BITRATE_KBPS);
    assert_eq!(c.step(window(0, 1, true), 260, 0), MIN_BITRATE_KBPS);
    assert_eq!(c.step(window(0, 1, true), MIN_BITRATE_KBPS, 0), MIN_BITRATE_KBPS);
}

#[test]
fn repeated_congestion_lowers_every_time() {
    let mut c = Controller::new(40_000, 0);
    let mut target = 40_000;
    while target > MIN_BITRATE_KBPS {
        let next = c.step(window(u64::MAX, 1, false), target, 0);
        assert!(next < target);
        target = next;
    }
    assert_eq!(target, MIN_BITRATE_KBPS);
}

#[test]
fn quiet_link_climbs_after_the_hold() {
    let mut c = Controller::new(8_000, 0);
    assert_eq!(c.step(window(0, 1, false), 4_000, 1_000 * MS), 250);
    let hold = HEALTHY_HOLD_MS as u128 * MS;
    // Inside the hold the target stays.
    assert_eq!(c.step(window(9, 0, false), 1_000, 1_000 * MS + hold - 1), 1_000);
    // After it, two steps make one healthy second.
    let first = c.step(window(9, 0, false), 1_000, 1_000 * MS + hold);
    let second = c.step(window(9, 0, false), first, 1_500 * MS + hold);
    assert_eq!(first, 1_100);
    assert_eq!(second, 1_000 + AIMD_INCREASE_KBPS);
}

#[test]
fn climb_stops_at_the_ceiling() {
    let mut c = Controller::new(4_000, 0);
    assert_eq!(c.step(window(0, 0, false), 3_950, 10_000 * MS), 4_000);
    assert_eq!(c.step(window(0, 0, false), 4_000, 20_000 * MS), 4_000);
    let mut huge = Controller::new(u32::MAX, 0);
    assert_eq!(huge.step(window(0, 0, false), u32::MAX - 1, 10_000 * MS), u32::MAX);
}

/// The decrease step in single precision.
fn float_step(current: u32, bytes: u64) -> u32 {
    let goodput = (bytes as f64 * 8.0 / 0.5 / 1000.0) as u32;
    let from_aimd = (current as f32 * 0.75f32) as u32;
    let from_meter = (goodput as f32 * 0.9) as u32;
    from_aimd.min(from_meter.max(250)).max(250)
}

#[test]
fn integer_rounding_matches_single_precision() {
    let mut c = Controller::new(u32::MAX, 0);
    let mut x: u64 = 0x9e37_79b9_7f4a_7c15;
    for round in 0..200_000u32 {
        x ^= x << 13;
        x ^= x >> 7;
        x ^= x << 17;
        let current = (x >> 32) as u32 >> (round % 32);
        let bytes = x.rotate_left(21) >> (round % 64);
        assert_eq!(
            c.step(window(bytes, 1, false), current, 0),
            float_step(current, bytes),
            "current={current} bytes={bytes}"
        );
    }
    for current in [0, 1, 249, 250, 333, 334, 0x00ff_ffff, 0x0100_0001, 0x5555_5556, u32::MAX] {
        for bytes in [0, 1, 62, 63, 625, 0x1000_0001, 0x3fff_ffff_ffff, u64::MAX] {
            assert_eq!(c.step(window(bytes, 1, false), current, 0), float_step(current, bytes));
        }
    }
}

#[test]
fn measured_bound_is_nine_tenths() {
    let mut c = Controller::new(u32::MAX, 0);
    for kbps in (300..=1_000_000u64).step_by(7) {
        // The smallest window that amounts to `kbps`.
        let bytes = (kbps * 1000 + 15) / 16;
        let target = c.step(window(bytes, 1, false), u32::MAX, 0);
        let goodput = bytes * 16 / 1000;
        assert_eq!(target as u64, goodput * 9 / 10);
    }
}
