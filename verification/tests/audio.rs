//! Preparation of captured audio.

use std::collections::VecDeque;

use screenshare::capture::audio::{
    convert_pcm, interleave, loopback_step, packet_bytes, pcm_to_bits, read_samples, take_packet,
    LoopbackAction, LoopbackEvent,
};
use screenshare::webrtc_client::sender::{audio_packet, AudioPump, CHUNK_SAMPLES};

fn bytes(samples: &[f32]) -> Vec<u8> {
    samples.iter().flat_map(|s| s.to_le_bytes()).collect()
}

fn floats(bits: &[u32]) -> Vec<f32> {
    bits.iter().map(|b| f32::from_bits(*b)).collect()
}

#[test]
fn samples_are_read_little_endian() {
    let mut b = bytes(&[0.5, -1.0]);
    assert_eq!(floats(&read_samples(&b)), vec![0.5, -1.0]);
    b.push(1);
    b.push(2);
    b.push(3);
    assert_eq!(floats(&read_samples(&b)), vec![0.5, -1.0], "a partial sample is passed over");
    assert!(read_samples(&[1, 2, 3]).is_empty());
}

#[test]
fn planar_channels_are_interleaved() {
    let left = bytes(&[1.0, 2.0, 3.0]);
    let right = bytes(&[-1.0, -2.0, -3.0]);
    let s = interleave(&vec![left.as_slice(), right.as_slice()]).unwrap();
    assert_eq!(floats(&s), vec![1.0, -1.0, 2.0, -2.0, 3.0, -3.0]);
}

#[test]
fn single_buffer_is_copied() {
    let b = bytes(&[1.0, 2.0, 3.0]);
    assert_eq!(floats(&interleave(&vec![b.as_slice()]).unwrap()), vec![1.0, 2.0, 3.0]);
    // Empty buffers do not count as channels.
    let s = interleave(&vec![&[][..], b.as_slice(), &[][..]]).unwrap();
    assert_eq!(floats(&s), vec![1.0, 2.0, 3.0]);
}

#[test]
fn ragged_channels_end_with_the_shortest() {
    let left = bytes(&[1.0, 2.0, 3.0]);
    let mut right = bytes(&[-1.0, -2.0]);
    right.push(0);
    let s = interleave(&vec![left.as_slice(), right.as_slice()]).unwrap();
    assert_eq!(floats(&s), vec![1.0, -1.0, 2.0, -2.0]);
}

#[test]
fn buffers_without_a_sample_give_nothing() {
    assert!(interleave(&vec![]).is_none());
    assert!(interleave(&vec![&[][..], &[][..]]).is_none());
    assert!(interleave(&vec![&[1, 2, 3][..]]).is_none());
    let full = bytes(&[1.0]);
    assert!(interleave(&vec![full.as_slice(), &[1, 2][..]]).is_none());
}

#[test]
fn packets_are_taken_off_the_front() {
    assert_eq!(packet_bytes(8), 7_680);
    let all = bytes(&[1.0, 2.0, 3.0, 4.0, 5.0]);
    let mut queue: VecDeque<u8> = all.iter().copied().collect();
    assert_eq!(floats(&take_packet(&mut queue, 8).unwrap()), vec![1.0, 2.0]);
    assert_eq!(floats(&take_packet(&mut queue, 8).unwrap()), vec![3.0, 4.0]);
    assert!(take_packet(&mut queue, 8).is_none());
    assert_eq!(queue.len(), 4, "what does not fill a packet stays");
}

#[test]
fn every_16_bit_sample_converts_like_a_float_division() {
    for s in i16::MIN..=i16::MAX {
        let expected = s as f32 / i16::MAX as f32;
        assert_eq!(pcm_to_bits(s), expected.to_bits(), "sample {s}");
    }
    assert_eq!(floats(&convert_pcm(&[0, i16::MAX, -i16::MAX])), vec![0.0, 1.0, -1.0]);
}

#[test]
fn capture_loop_survives_a_slow_receiver() {
    assert_eq!(loopback_step(LoopbackEvent::Idle { receiver_gone: false }), LoopbackAction::Wait);
    assert_eq!(loopback_step(LoopbackEvent::Idle { receiver_gone: true }), LoopbackAction::Stop);
    assert_eq!(loopback_step(LoopbackEvent::ReadFailed), LoopbackAction::Stop);
    assert_eq!(loopback_step(LoopbackEvent::Read), LoopbackAction::TakePacket);
    assert_eq!(loopback_step(LoopbackEvent::QueueShort), LoopbackAction::Wait);
    assert_eq!(loopback_step(LoopbackEvent::Delivered), LoopbackAction::TakePacket);
    assert_eq!(loopback_step(LoopbackEvent::ReceiverFull), LoopbackAction::TakePacket);
    assert_eq!(loopback_step(LoopbackEvent::ReceiverGone), LoopbackAction::Stop);
}

#[test]
fn stereo_is_cut_into_chunks() {
    let mut pump = AudioPump::new(48_000, 2);
    let stream: Vec<u32> = (0..5_000).collect();
    let mut out: Vec<u32> = Vec::new();
    let mut chunks = 0;
    for part in stream.chunks(700) {
        let work = pump.push(part);
        assert!(!work.warn);
        for c in work.chunks {
            assert_eq!(c.len(), CHUNK_SAMPLES);
            chunks += 1;
            out.extend(c);
        }
        assert!(pump.buf.len() < CHUNK_SAMPLES);
    }
    assert_eq!(chunks, 2);
    out.extend(pump.buf);
    assert_eq!(out, stream, "nothing is lost, repeated or moved");
}

#[test]
fn mono_goes_to_both_sides() {
    let mut pump = AudioPump::new(48_000, 1);
    let work = pump.push(&(0..1_000).collect::<Vec<u32>>());
    assert!(work.warn);
    assert_eq!(work.chunks.len(), 1);
    assert_eq!(work.chunks[0][..6], [0, 0, 1, 1, 2, 2]);
    assert_eq!(pump.buf.len(), 2_000 - CHUNK_SAMPLES);
    assert!(!pump.push(&[1]).warn, "the warning comes once");
}

#[test]
fn other_rates_are_warned_about() {
    assert!(AudioPump::new(44_100, 2).push(&[]).warn);
    assert!(AudioPump::new(48_000, 6).push(&[]).warn);
    assert!(!AudioPump::new(48_000, 2).push(&[]).warn);
}

#[test]
fn audio_packets_hold_what_the_encoder_wrote() {
    let f = audio_packet(&[1, 2, 3, 4], 3, 77);
    assert_eq!((f.stream, f.keyframe, f.timestamp_us), (1, false, 77));
    assert_eq!(f.data, vec![1, 2, 3]);
}
