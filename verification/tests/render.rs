//! From packets to pictures.

use screenshare::render::{
    i420_to_rgba, needs_new_texture, DecodePlan, DecoderLife, FrameAssembler, I420Planes,
    PacketOutcome,
};

fn frame(outcome: PacketOutcome) -> Option<Vec<u8>> {
    match outcome {
        PacketOutcome::Frame(f) => Some(f),
        _ => None,
    }
}

#[test]
fn packets_become_a_frame_at_the_marker() {
    let mut a = FrameAssembler::new();
    assert!(matches!(a.push(&[0x10, 1, 2, 3], false), PacketOutcome::Buffered));
    assert!(matches!(a.push(&[0x00, 4, 5, 6], false), PacketOutcome::Buffered));
    assert_eq!(frame(a.push(&[0x00, 7, 8, 9], true)), Some(vec![1, 2, 3, 4, 5, 6, 7, 8, 9]));
    assert!(a.buf.is_empty());
    assert_eq!(frame(a.push(&[0x10, 10, 11, 12], true)), Some(vec![10, 11, 12]));
}

#[test]
fn short_packets_are_rejected_and_change_nothing() {
    let mut a = FrameAssembler::new();
    a.push(&[0x10, 1, 2, 3], false);
    assert!(matches!(a.push(&[0x10, 1, 2], true), PacketOutcome::Rejected));
    assert!(matches!(a.push(&[], true), PacketOutcome::Rejected));
    assert_eq!(a.buf, vec![1, 2, 3]);
}

#[test]
fn descriptors_are_cut_off() {
    let payload = |packet: &[u8]| frame(FrameAssembler::new().push(packet, true));
    // Extended, no optional field.
    assert_eq!(payload(&[0x80, 0x00, 1, 2]), Some(vec![1, 2]));
    // Short and long picture id.
    assert_eq!(payload(&[0x80, 0x80, 0x11, 1, 2]), Some(vec![1, 2]));
    assert_eq!(payload(&[0x80, 0x80, 0x81, 0x11, 1, 2]), Some(vec![1, 2]));
    // TL0PICIDX, layer, key index, and layer with key index.
    assert_eq!(payload(&[0x80, 0x40, 0x11, 1, 2]), Some(vec![1, 2]));
    assert_eq!(payload(&[0x80, 0x20, 0x11, 1, 2]), Some(vec![1, 2]));
    assert_eq!(payload(&[0x80, 0x10, 0x11, 1, 2]), Some(vec![1, 2]));
    assert_eq!(payload(&[0x80, 0x30, 0x11, 1, 2]), Some(vec![1, 2]));
    // Everything at once.
    assert_eq!(payload(&[0x80, 0xf0, 0x81, 0x22, 0x33, 0x44, 1, 2]), Some(vec![1, 2]));
}

#[test]
fn packet_that_ends_with_its_descriptor_is_rejected() {
    let mut a = FrameAssembler::new();
    assert!(matches!(a.push(&[0x80, 0x80, 0x81, 0x11], true), PacketOutcome::Rejected));
    assert!(matches!(a.push(&[0x80, 0xf0, 0x01, 0x22, 0x33], true), PacketOutcome::Rejected));
}

#[test]
fn announced_fields_carry_over() {
    let mut a = FrameAssembler::new();
    a.push(&[0x80, 0x80, 0x11, 1, 2], true);
    assert_eq!((a.flags.i, a.flags.l, a.flags.t, a.flags.k), (1, 0, 0, 0));
    // Not extended, but a picture id is still expected.
    assert_eq!(frame(a.push(&[0x10, 0x12, 3, 4], true)), Some(vec![3, 4]));
    assert_eq!(frame(a.push(&[0x10, 0x92, 0x13, 3, 4], true)), Some(vec![3, 4]));
    // An extended packet takes it back.
    assert_eq!(frame(a.push(&[0x80, 0x00, 3, 4], true)), Some(vec![3, 4]));
    assert_eq!(frame(a.push(&[0x10, 0x12, 3, 4], true)), Some(vec![0x12, 3, 4]));
    // A packet that is too short leaves it alone.
    a.push(&[0x80, 0xf0, 1], true);
    assert_eq!((a.flags.i, a.flags.l, a.flags.t, a.flags.k), (0, 0, 0, 0));
}

#[test]
fn black_white_and_colours() {
    let pixel = |y: u8, u: u8, v: u8| {
        let (y, u, v) = ([y], [u], [v]);
        let planes = I420Planes { y: &y, y_stride: 1, u: &u, u_stride: 1, v: &v, v_stride: 1 };
        i420_to_rgba(&planes, 1, 1).rgba
    };
    assert_eq!(pixel(16, 128, 128), vec![0, 0, 0, 255]);
    assert_eq!(pixel(235, 128, 128), vec![255, 255, 255, 255]);
    assert_eq!(pixel(126, 128, 128), vec![128, 128, 128, 255]);
    assert_eq!(pixel(81, 90, 240), vec![255, 0, 0, 255]);
    assert_eq!(pixel(145, 54, 34), vec![0, 255, 1, 255]);
    assert_eq!(pixel(0, 128, 128), vec![0, 0, 0, 255]);
    assert_eq!(pixel(255, 255, 255), vec![255, 125, 255, 255]);
}

#[test]
fn rows_are_found_by_stride_and_chroma_is_shared() {
    // 3 by 3 pixels in rows of 5 luma and 4 chroma bytes.
    let y: Vec<u8> = (0..13).map(|i| 16 + 10 * i as u8).collect();
    let u = vec![128u8, 100, 0, 0, 128, 200];
    let v = vec![128u8, 90, 0, 0, 60, 128];
    let planes = I420Planes { y: &y, y_stride: 5, u: &u, u_stride: 4, v: &v, v_stride: 4 };
    let d = i420_to_rgba(&planes, 3, 3);
    assert_eq!((d.width, d.height, d.rgba.len()), (3, 3, 36));
    let expected = |yv: u8, uv: u8, vv: u8| {
        let (yv, uv, vv) = (yv as i32 - 16, uv as i32 - 128, vv as i32 - 128);
        let c = |n: i32| (n >> 8).clamp(0, 255) as u8;
        [
            c(298 * yv + 409 * vv + 128),
            c(298 * yv - 100 * uv - 208 * vv + 128),
            c(298 * yv + 516 * uv + 128),
            255,
        ]
    };
    for row in 0..3 {
        for col in 0..3 {
            let at = (row * 3 + col) * 4;
            let chroma = (row / 2) * 4 + col / 2;
            assert_eq!(
                d.rgba[at..at + 4],
                expected(y[row * 5 + col], u[chroma], v[chroma]),
                "{col},{row}"
            );
        }
    }
}

#[test]
fn empty_picture() {
    let planes = I420Planes { y: &[], y_stride: 0, u: &[], u_stride: 0, v: &[], v_stride: 0 };
    assert!(i420_to_rgba(&planes, 0, 0).rgba.is_empty());
    assert!(i420_to_rgba(&planes, 0, 7).rgba.is_empty());
    assert!(i420_to_rgba(&planes, 7, 0).rgba.is_empty());
}

#[test]
fn texture_is_kept_while_the_size_stays() {
    assert!(needs_new_texture(None, 0, 0));
    assert!(!needs_new_texture(Some((640, 480)), 640, 480));
    assert!(needs_new_texture(Some((640, 480)), 480, 640));
}

#[test]
fn decoder_is_initialised_once_and_when_needed() {
    let mut d = DecoderLife::new();
    assert_eq!(d.plan(0), DecodePlan::Skip);
    assert_eq!(d.plan(5), DecodePlan::Initialise);
    assert_eq!(d.initialisation(false), DecodePlan::Skip);
    assert_eq!(d.plan(5), DecodePlan::Initialise);
    assert_eq!(d.initialisation(true), DecodePlan::Decode);
    assert!(d.initialised);
    assert_eq!(d.plan(5), DecodePlan::Decode);
    assert_eq!(d.plan(0), DecodePlan::Skip);
}
