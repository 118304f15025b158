//! Preparation of captured audio.
//!
//! Samples are 32-bit floating-point numbers. This crate only moves them
//! around, so it keeps each as the integer that has the same bits.

use crate::wire::{le_value, read_le};
use std::collections::VecDeque;
use vstd::arithmetic::power2::{lemma2_to64, lemma_pow2_unfold, pow2};
use vstd::prelude::*;

verus! {

/// Samples per channel in one Opus frame: 20 ms at 48 kHz.
pub const FRAME_SAMPLES: usize = 960;

/// One captured audio frame: interleaved samples, each as the bits of a 32-bit
/// float.
pub struct AudioFrame {
    pub samples: Vec<u32>,
    pub channels: u16,
    pub sample_rate: u32,
    pub timestamp_us: u64,
}

/// Sample `i` of a little-endian buffer.
pub open spec fn sample_at(b: Seq<u8>, i: int) -> u32 {
    le_value(b.subrange(4 * i, 4 * i + 4)) as u32
}

/// All whole samples of a little-endian buffer.
pub open spec fn samples_of(b: Seq<u8>) -> Seq<u32> {
    Seq::new(b.len() / 4, |i: int| sample_at(b, i))
}

fn read_sample(b: &[u8], i: usize) -> (s: u32)
    requires
        4 * i + 4 <= b@.len(),
    ensures
        s == sample_at(b@, i as int),
{
    let total = b.len();
    assert(4 * i < total);
    let v = read_le(b, 4 * i, 4);
    proof {
        let field = b@.subrange(4 * i as int, 4 * i + 4);
        crate::wire::lemma_le_write_back(field);
        reveal_with_fuel(crate::wire::pow256, 5);
    }
    v as u32
}

/// Reads a buffer of interleaved samples. Bytes after the last whole sample are
/// passed over.
pub fn read_samples(b: &[u8]) -> (samples: Vec<u32>)
    ensures
        samples@ == samples_of(b@),
{
    let mut samples: Vec<u32> = Vec::new();
    let n = b.len() / 4;
    let mut i: usize = 0;
    while i < n
        invariant
            i <= n,
            n == b@.len() / 4,
            samples@ == samples_of(b@).take(i as int),
        decreases n - i,
    {
        samples.push(read_sample(b, i));
        assert(samples@ =~= samples_of(b@).take(i + 1));
        i += 1;
    }
    assert(samples@ =~= samples_of(b@));
    samples
}

/// Contents of a list of buffers.
pub open spec fn contents(buffers: Seq<&[u8]>) -> Seq<Seq<u8>> {
    Seq::new(buffers.len(), |i: int| buffers[i]@)
}

/// The buffers that hold anything, in order.
pub open spec fn non_empty(buffers: Seq<Seq<u8>>) -> Seq<Seq<u8>>
    decreases buffers.len(),
{
    if buffers.len() == 0 {
        Seq::empty()
    } else if buffers.last().len() == 0 {
        non_empty(buffers.drop_last())
    } else {
        non_empty(buffers.drop_last()).push(buffers.last())
    }
}

/// Whole samples that every buffer has.
pub open spec fn common_samples(buffers: Seq<Seq<u8>>) -> nat
    decreases buffers.len(),
{
    if buffers.len() == 0 {
        0
    } else if buffers.len() == 1 {
        buffers[0].len() / 4
    } else {
        let rest = common_samples(buffers.drop_last());
        let last = buffers.last().len() / 4;
        if last < rest {
            last
        } else {
            rest
        }
    }
}

/// One buffer per channel, taken sample by sample across the channels, as far as
/// the shortest buffer goes. A single buffer is interleaved already and comes
/// out as it is.
pub open spec fn interleaved(channels: Seq<Seq<u8>>) -> Seq<u32> {
    Seq::new(
        common_samples(channels) * channels.len(),
        |k: int| sample_at(channels[k % channels.len() as int], k / channels.len() as int),
    )
}

proof fn lemma_common_samples(buffers: Seq<Seq<u8>>, i: int)
    requires
        0 <= i < buffers.len(),
    ensures
        4 * common_samples(buffers) <= buffers[i].len(),
    decreases buffers.len(),
{
    if buffers.len() > 1 && i < buffers.len() - 1 {
        lemma_common_samples(buffers.drop_last(), i);
        assert(buffers.drop_last()[i] == buffers[i]);
    }
}

fn keep_non_empty<'a>(buffers: &Vec<&'a [u8]>) -> (kept: Vec<&'a [u8]>)
    ensures
        contents(kept@) == non_empty(contents(buffers@)),
{
    let mut kept: Vec<&'a [u8]> = Vec::new();
    let mut i: usize = 0;
    assert(contents(kept@) =~= non_empty(contents(buffers@).take(0)));
    while i < buffers.len()
        invariant
            i <= buffers@.len(),
            contents(kept@) == non_empty(contents(buffers@).take(i as int)),
        decreases buffers@.len() - i,
    {
        let b = buffers[i];
        let ghost before = kept@;
        proof {
            let prefix = contents(buffers@).take(i + 1);
            assert(prefix.drop_last() =~= contents(buffers@).take(i as int));
            assert(prefix.last() == b@);
        }
        if b.len() > 0 {
            kept.push(b);
            assert(contents(kept@) =~= contents(before).push(b@));
        }
        i += 1;
    }
    assert(contents(buffers@).take(i as int) =~= contents(buffers@));
    kept
}

fn shortest(channels: &Vec<&[u8]>) -> (n: usize)
    requires
        channels@.len() > 0,
    ensures
        n == common_samples(contents(channels@)),
{
    let mut n: usize = channels[0].len() / 4;
    let mut i: usize = 1;
    assert(contents(channels@).take(1)[0] == channels@[0]@);
    while i < channels.len()
        invariant
            1 <= i <= channels@.len(),
            n == common_samples(contents(channels@).take(i as int)),
        decreases channels@.len() - i,
    {
        let here = channels[i].len() / 4;
        proof {
            let prefix = contents(channels@).take(i + 1);
            assert(prefix.drop_last() =~= contents(channels@).take(i as int));
            assert(prefix.last() == channels@[i as int]@);
        }
        if here < n {
            n = here;
        }
        i += 1;
    }
    assert(contents(channels@).take(i as int) =~= contents(channels@));
    n
}

/// Brings the buffers of a capture callback into one interleaved sequence.
/// `None` if they hold no whole sample.
pub fn interleave(buffers: &Vec<&[u8]>) -> (samples: Option<Vec<u32>>)
    ensures
        ({
            let all = interleaved(non_empty(contents(buffers@)));
            &&& samples is Some <==> all.len() > 0
            &&& samples matches Some(s) ==> s@ == all
        }),
{
    let channels = keep_non_empty(buffers);
    let ghost parts = contents(channels@);
    let n_ch = channels.len();
    if n_ch == 0 {
        assert(interleaved(parts).len() == 0) by (nonlinear_arith)
            requires
                interleaved(parts).len() == common_samples(parts) * parts.len(),
                parts.len() == 0,
        ;
        return None;
    }
    let per_ch = shortest(&channels);
    let ghost all = interleaved(parts);
    let mut out: Vec<u32> = Vec::new();
    let mut s: usize = 0;
    assert(all.take(0) =~= out@);
    assert(0 * n_ch == 0);
    while s < per_ch
        invariant
            s <= per_ch,
            n_ch > 0,
            n_ch == channels@.len(),
            parts == contents(channels@),
            per_ch == common_samples(parts),
            all == interleaved(parts),
            0 <= s * n_ch <= all.len(),
            out@ == all.take(s * n_ch),
        decreases per_ch - s,
    {
        proof {
            assert((s + 1) * n_ch == s * n_ch + n_ch) by (nonlinear_arith);
            assert((s + 1) * n_ch <= per_ch * n_ch) by (nonlinear_arith)
                requires
                    s + 1 <= per_ch,
                    0 <= n_ch,
            ;
        }
        let mut ch: usize = 0;
        while ch < n_ch
            invariant
                ch <= n_ch,
                s < per_ch,
                n_ch > 0,
                n_ch == channels@.len(),
                parts == contents(channels@),
                per_ch == common_samples(parts),
                all == interleaved(parts),
                0 <= s * n_ch,
                s * n_ch + n_ch <= all.len(),
                out@ == all.take(s * n_ch + ch),
            decreases n_ch - ch,
        {
            proof {
                lemma_common_samples(parts, ch as int);
                vstd::arithmetic::div_mod::lemma_fundamental_div_mod_converse(
                    s * n_ch + ch,
                    n_ch as int,
                    s as int,
                    ch as int,
                );
            }
            let b = channels[ch];
            out.push(read_sample(b, s));
            assert(out@ =~= all.take(s * n_ch + ch + 1));
            ch += 1;
        }
        s += 1;
    }
    assert(all.take(per_ch * n_ch) =~= all);
    if out.len() == 0 {
        None
    } else {
        Some(out)
    }
}

/// A single non-empty buffer comes out sample by sample.
pub proof fn law_single_buffer_is_copied(b: Seq<u8>)
    ensures
        interleaved(seq![b]) == samples_of(b),
{
    let channels = seq![b];
    assert(channels.len() == 1);
    assert(common_samples(channels) * 1 == b.len() / 4);
    assert forall|k: int| 0 <= k < b.len() / 4 implies interleaved(channels)[k]
        == #[trigger] samples_of(b)[k] by {
        assert(k % 1 == 0 && k / 1 == k);
    }
    assert(interleaved(channels) =~= samples_of(b));
}

/// Sample `s` of channel `ch` lands at position `s * channels + ch`.
pub proof fn law_interleaving_position(channels: Seq<Seq<u8>>, s: int, ch: int)
    requires
        0 <= ch < channels.len(),
        0 <= s < common_samples(channels),
    ensures
        s * channels.len() + ch < interleaved(channels).len(),
        interleaved(channels)[s * channels.len() + ch] == sample_at(channels[ch], s),
{
    let n = channels.len() as int;
    let per_channel = common_samples(channels) as int;
    assert(s * n + ch < per_channel * n) by (nonlinear_arith)
        requires
            s + 1 <= per_channel,
            0 <= ch < n,
    ;
    assert(0 <= s * n) by (nonlinear_arith)
        requires
            0 <= s,
            0 <= n,
    ;
    vstd::arithmetic::div_mod::lemma_fundamental_div_mod_converse(s * n + ch, n, s, ch);
}

/// Bytes of one Opus frame at `block_align` bytes per sample of all channels.
pub fn packet_bytes(block_align: usize) -> (n: usize)
    requires
        FRAME_SAMPLES * block_align <= usize::MAX,
    ensures
        n == FRAME_SAMPLES * block_align,
{
    FRAME_SAMPLES * block_align
}

/// A queue after a packet of `n` bytes was taken off it, and the packet's samples.
pub open spec fn packet_off(queue: Seq<u8>, n: nat) -> (Seq<u8>, Option<Seq<u32>>) {
    if queue.len() < n {
        (queue, None)
    } else {
        (queue.skip(n as int), Some(samples_of(queue.take(n as int))))
    }
}

/// Takes one packet off the front of a byte queue and reads its samples. `None`
/// while the queue holds less than a packet.
pub fn take_packet(queue: &mut VecDeque<u8>, packet_bytes: usize) -> (samples: Option<Vec<u32>>)
    ensures
        final(queue)@ == packet_off(old(queue)@, packet_bytes as nat).0,
        samples is Some <==> packet_off(old(queue)@, packet_bytes as nat).1 is Some,
        samples matches Some(s) ==> packet_off(old(queue)@, packet_bytes as nat).1 == Some(s@),
        samples is Some <==> old(queue)@.len() >= packet_bytes,
        samples matches Some(s) ==> {
            &&& s@ == samples_of(old(queue)@.take(packet_bytes as int))
            &&& final(queue)@ == old(queue)@.skip(packet_bytes as int)
        },
        samples is None ==> final(queue)@ == old(queue)@,
{
    if queue.len() < packet_bytes {
        return None;
    }
    let mut bytes: Vec<u8> = Vec::new();
    let mut i: usize = 0;
    while i < packet_bytes
        invariant
            i <= packet_bytes <= old(queue)@.len(),
            bytes@ == old(queue)@.take(i as int),
            queue@ == old(queue)@.skip(i as int),
        decreases packet_bytes - i,
    {
        match queue.pop_front() {
            Some(b) => {
                bytes.push(b);
            },
            None => {},
        }
        assert(bytes@ =~= old(queue)@.take(i + 1));
        assert(queue@ =~= old(queue)@.skip(i + 1));
        i += 1;
    }
    Some(read_samples(bytes.as_slice()))
}

/// Largest 16-bit sample, which becomes one.
pub const PCM_SCALE: u64 = 32_767;

/// How often `n` is doubled until it reaches `d`.
pub open spec fn doublings(n: nat, d: nat) -> nat
    decreases 2 * d - n,
{
    if n == 0 || n >= d {
        0
    } else {
        1 + doublings(2 * n, d)
    }
}

/// `n` doubled until it reaches `d`.
pub open spec fn grown(n: nat, d: nat) -> nat
    decreases 2 * d - n,
{
    if n == 0 || n >= d {
        n
    } else {
        grown(2 * n, d)
    }
}

/// 24-bit significand of `n / PCM_SCALE`: the quotient, scaled to lie between
/// one and two, in units of 2^-23, rounded to the nearest. There are no ties,
/// because the divisor is odd.
pub open spec fn significand(n: nat) -> nat {
    (2 * (grown(n, PCM_SCALE as nat) * 0x80_0000) + 32_767) / 65_534
}

/// Bits of the 32-bit float nearest to `n / PCM_SCALE`.
pub open spec fn quotient_bits(n: nat) -> int {
    if n == 0 {
        0
    } else {
        (127 - doublings(n, PCM_SCALE as nat)) * 0x80_0000 + (significand(n) - 0x80_0000)
    }
}

/// Bits of the float that a signed 16-bit sample becomes, `sample / 32767`.
pub open spec fn pcm_bits(sample: i16) -> int {
    if sample < 0 {
        0x8000_0000 + quotient_bits((-sample) as nat)
    } else {
        quotient_bits(sample as nat)
    }
}

proof fn lemma_growth(n: nat)
    requires
        0 < n <= 32_768,
    ensures
        PCM_SCALE <= grown(n, PCM_SCALE as nat) < 2 * PCM_SCALE,
        grown(n, PCM_SCALE as nat) == n * pow2(doublings(n, PCM_SCALE as nat)),
        doublings(n, PCM_SCALE as nat) <= 15,
    decreases 2 * PCM_SCALE - n,
{
    lemma2_to64();
    if n < PCM_SCALE {
        if 2 * n <= 32_768 {
            lemma_growth(2 * n);
        } else {
            assert(grown(2 * n, PCM_SCALE as nat) == 2 * n);
            assert((2 * n) * pow2(0) == 2 * n) by (nonlinear_arith)
                requires
                    pow2(0) == 1,
            ;
        }
        let k = doublings(2 * n, PCM_SCALE as nat);
        lemma_pow2_unfold(k + 1);
        assert(n * (2 * pow2(k)) == (2 * n) * pow2(k)) by (nonlinear_arith);
        lemma_few_doublings(n, 15);
    } else {
        assert(n * pow2(0) == n) by (nonlinear_arith)
            requires
                pow2(0) == 1,
        ;
    }
}

proof fn lemma_few_doublings(n: nat, left: nat)
    requires
        0 < n,
        n * pow2(left) >= PCM_SCALE,
    ensures
        doublings(n, PCM_SCALE as nat) <= left,
    decreases left,
{
    if n < PCM_SCALE {
        lemma2_to64();
        if left == 0 {
            assert(n * pow2(left) == n) by (nonlinear_arith)
                requires
                    pow2(left) == 1,
            ;
        } else {
            lemma_pow2_unfold(left);
            let half = pow2((left - 1) as nat);
            assert(n * (2 * half) == (2 * n) * half) by (nonlinear_arith);
            lemma_few_doublings(2 * n, (left - 1) as nat);
        }
    }
}

/// A converted sample is the nearest float: its significand has 24 bits and is
/// off by at most half a unit.
pub proof fn law_pcm_is_nearest(n: nat)
    requires
        0 < n <= 32_768,
    ensures
        ({
            let k = doublings(n, PCM_SCALE as nat);
            let exact = n * pow2(k) * 0x80_0000;
            &&& k <= 15
            &&& 0x80_0000 <= significand(n) < 0x100_0000
            &&& 2 * exact - PCM_SCALE <= 2 * significand(n) * PCM_SCALE <= 2 * exact + PCM_SCALE
        }),
{
    lemma_growth(n);
    let top = grown(n, PCM_SCALE as nat);
    let m = significand(n);
    assert(m == (2 * (top * 0x80_0000) + 32_767) / 65_534);
    assert(2 * m * PCM_SCALE == m * 65_534) by (nonlinear_arith)
        requires
            PCM_SCALE == 32_767,
    ;
}

/// Converts a signed 16-bit sample to a float, given as its bits.
pub fn pcm_to_bits(sample: i16) -> (bits: u32)
    ensures
        bits == pcm_bits(sample),
{
    let magnitude: u64 = if sample < 0 {
        (-(sample as i64)) as u64
    } else {
        sample as u64
    };
    if magnitude == 0 {
        return 0;
    }
    proof {
        lemma_growth(magnitude as nat);
        law_pcm_is_nearest(magnitude as nat);
    }
    let ghost all = doublings(magnitude as nat, PCM_SCALE as nat);
    let mut n: u64 = magnitude;
    let mut k: u32 = 0;
    while n < PCM_SCALE
        invariant
            0 < n,
            n <= 2 * PCM_SCALE,
            all <= 15,
            k + doublings(n as nat, PCM_SCALE as nat) == all,
            grown(n as nat, PCM_SCALE as nat) == grown(magnitude as nat, PCM_SCALE as nat),
        decreases 2 * PCM_SCALE - n,
    {
        n = n * 2;
        k = k + 1;
    }
    let m: u64 = (2 * (n * 0x80_0000) + PCM_SCALE) / (2 * PCM_SCALE);
    let quotient: u32 = (127 - k) * 0x80_0000 + (m as u32 - 0x80_0000);
    if sample < 0 {
        0x8000_0000 + quotient
    } else {
        quotient
    }
}

/// Bits of the floats that these samples become.
pub open spec fn converted(samples: Seq<i16>) -> Seq<u32> {
    Seq::new(samples.len(), |i: int| pcm_bits(samples[i]) as u32)
}

/// Samples are converted one by one, in order.
pub proof fn law_samples_are_converted_in_order(samples: Seq<i16>, i: int)
    requires
        0 <= i < samples.len(),
    ensures
        converted(samples).len() == samples.len(),
        converted(samples)[i] == pcm_bits(samples[i]),
{
    let n: nat = if samples[i] < 0 {
        (-samples[i]) as nat
    } else {
        samples[i] as nat
    };
    if n > 0 {
        law_pcm_is_nearest(n);
    }
}

/// Converts signed 16-bit samples to floats, given as their bits.
pub fn convert_pcm(samples: &[i16]) -> (bits: Vec<u32>)
    ensures
        bits@ == converted(samples@),
        bits@ == Seq::new(samples@.len(), |i: int| pcm_bits(samples@[i]) as u32),
{
    let mut bits: Vec<u32> = Vec::new();
    let mut i: usize = 0;
    while i < samples.len()
        invariant
            i <= samples@.len(),
            bits@.len() == i,
            forall|j: int| 0 <= j < i ==> bits@[j] == pcm_bits(samples@[j]) as u32,
        decreases samples@.len() - i,
    {
        bits.push(pcm_to_bits(samples[i]));
        i += 1;
    }
    assert(bits@ =~= Seq::new(samples@.len(), |i: int| pcm_bits(samples@[i]) as u32));
    bits
}

/// Something that happened in a loop that drains a capture device.
#[derive(Clone, Copy, Debug, PartialEq, Eq, Structural)]
pub enum LoopbackEvent {
    /// The device had nothing to say for a while.
    Idle { receiver_gone: bool },
    /// Reading from the device failed.
    ReadFailed,
    /// Bytes were read into the queue.
    Read,
    /// The queue holds less than a packet.
    QueueShort,
    /// A packet was handed on.
    Delivered,
    /// The receiver is behind; the packet was dropped, which is just a glitch.
    ReceiverFull,
    ReceiverGone,
}

/// What the loop is to do.
#[derive(Clone, Copy, Debug, PartialEq, Eq, Structural)]
pub enum LoopbackAction {
    /// Wait for the device.
    Wait,
    /// Take the next packet off the queue and hand it on.
    TakePacket,
    Stop,
}

/// How a capture loop goes on after an event.
pub open spec fn loopback_course(event: LoopbackEvent) -> LoopbackAction {
    match event {
        LoopbackEvent::Idle { receiver_gone } => if receiver_gone {
            LoopbackAction::Stop
        } else {
            LoopbackAction::Wait
        },
        LoopbackEvent::ReadFailed | LoopbackEvent::ReceiverGone => LoopbackAction::Stop,
        LoopbackEvent::QueueShort => LoopbackAction::Wait,
        LoopbackEvent::Read
        | LoopbackEvent::Delivered
        | LoopbackEvent::ReceiverFull => LoopbackAction::TakePacket,
    }
}

/// Decides how a capture loop goes on. It ends when the device fails or nobody
/// listens any more, and never because the receiver is slow.
pub fn loopback_step(event: LoopbackEvent) -> (action: LoopbackAction)
    ensures
        action == loopback_course(event),
        action == LoopbackAction::Stop <==> (event == LoopbackEvent::ReadFailed || event
            == LoopbackEvent::ReceiverGone || event == (LoopbackEvent::Idle {
            receiver_gone: true,
        })),
        action == LoopbackAction::Wait <==> (event == LoopbackEvent::QueueShort || event
            == (LoopbackEvent::Idle { receiver_gone: false })),
{
    match event {
        LoopbackEvent::Idle { receiver_gone } => if receiver_gone {
            LoopbackAction::Stop
        } else {
            LoopbackAction::Wait
        },
        LoopbackEvent::ReadFailed | LoopbackEvent::ReceiverGone => LoopbackAction::Stop,
        LoopbackEvent::QueueShort => LoopbackAction::Wait,
        LoopbackEvent::Read
        | LoopbackEvent::Delivered
        | LoopbackEvent::ReceiverFull => LoopbackAction::TakePacket,
    }
}

/// A sample is the number that its four bytes make, lowest first.
pub proof fn law_sample_is_four_bytes(b: Seq<u8>, i: int)
    requires
        0 <= i,
        4 * i + 4 <= b.len(),
    ensures
        samples_of(b).len() == b.len() / 4,
        samples_of(b)[i] == sample_at(b, i),
        sample_at(b, i) == b[4 * i] + 0x100 * b[4 * i + 1] + 0x1_0000 * b[4 * i + 2] + 0x100_0000
            * b[4 * i + 3],
{
    let field = b.subrange(4 * i, 4 * i + 4);
    crate::wire::law_value_of_four_bytes(field);
    crate::wire::lemma_le_write_back(field);
}

/// The buffers go as far as the shortest of them.
pub proof fn law_common_samples_is_the_least(buffers: Seq<Seq<u8>>)
    requires
        buffers.len() > 0,
    ensures
        forall|i: int|
            0 <= i < buffers.len() ==> 4 * common_samples(buffers) <= (#[trigger] buffers[i]).len(),
        exists|i: int|
            0 <= i < buffers.len() && (#[trigger] buffers[i]).len() < 4 * common_samples(buffers)
                + 4,
    decreases buffers.len(),
{
    assert forall|i: int| 0 <= i < buffers.len() implies 4 * common_samples(buffers) <= (
    #[trigger] buffers[i]).len() by {
        lemma_common_samples(buffers, i);
    }
    if buffers.len() == 1 {
        assert(buffers[0].len() < 4 * common_samples(buffers) + 4);
    } else {
        let rest = buffers.drop_last();
        law_common_samples_is_the_least(rest);
        let i = choose|i: int|
            0 <= i < rest.len() && (#[trigger] rest[i]).len() < 4 * common_samples(rest) + 4;
        if buffers.last().len() / 4 < common_samples(rest) {
            assert(buffers[buffers.len() - 1].len() < 4 * common_samples(buffers) + 4);
        } else {
            assert(buffers[i].len() < 4 * common_samples(buffers) + 4);
        }
    }
}

/// Empty buffers are left out and no others, and the order stays: taking a list in
/// two parts makes no difference, a buffer that holds anything is kept, and an
/// empty one is not.
pub proof fn law_empty_buffers_are_left_out(a: Seq<Seq<u8>>, b: Seq<Seq<u8>>, one: Seq<u8>)
    ensures
        non_empty(a + b) == non_empty(a) + non_empty(b),
        one.len() > 0 ==> non_empty(seq![one]) == seq![one],
        one.len() == 0 ==> non_empty(seq![one]).len() == 0,
    decreases b.len(),
{
    reveal_with_fuel(non_empty, 2);
    assert(seq![one].drop_last() =~= Seq::<Seq<u8>>::empty());
    assert(one.len() > 0 ==> non_empty(seq![one]) =~= seq![one]);
    if b.len() == 0 {
        assert(a + b =~= a);
        assert(non_empty(a) + non_empty(b) =~= non_empty(a));
    } else {
        law_empty_buffers_are_left_out(a, b.drop_last(), one);
        assert((a + b).drop_last() =~= a + b.drop_last());
        assert((a + b).last() == b.last());
        assert(non_empty(a + b) =~= non_empty(a) + non_empty(b));
    }
}

/// Interleaving takes as many samples of every channel as the shortest has, channel
/// by channel in turn.
pub proof fn law_interleaving_length(channels: Seq<Seq<u8>>)
    ensures
        interleaved(channels).len() == common_samples(channels) * channels.len(),
{
}

/// The bits of a converted sample: its sign, an exponent that scales the magnitude
/// to lie between one and two, and the 23 bits after the leading one of the nearest
/// significand. Zero is zero.
pub proof fn law_bits_of_converted_sample(sample: i16, k: nat, m: nat)
    requires
        sample != 0,
        0x80_0000 <= m < 0x100_0000,
        ({
            let scaled = (if sample < 0 {
                -sample
            } else {
                sample as int
            }) * pow2(k);
            &&& 32_767 <= scaled < 65_534
            &&& 2 * (scaled * 0x80_0000) - 32_767 <= 2 * m * 32_767 <= 2 * (scaled * 0x80_0000)
                + 32_767
        }),
    ensures
        sample > 0 ==> pcm_bits(sample) == 0x80_0000 * (127 - k) + (m - 0x80_0000),
        sample < 0 ==> pcm_bits(sample) == 0x8000_0000 + 0x80_0000 * (127 - k) + (m - 0x80_0000),
        pcm_bits(0) == 0,
{
    let n: nat = if sample < 0 {
        (-sample) as nat
    } else {
        sample as nat
    };
    let d = doublings(n, PCM_SCALE as nat);
    law_pcm_is_nearest(n);
    lemma_growth(n);
    lemma_same_scale(n, k, d);
    let exact = n * pow2(k) * 0x80_0000;
    let found = significand(n);
    assert(found == m) by (nonlinear_arith)
        requires
            2 * exact - 32_767 <= 2 * found * 32_767 <= 2 * exact + 32_767,
            2 * exact - 32_767 <= 2 * m * 32_767 <= 2 * exact + 32_767,
            exact % 2 == 0,
    ;
}

/// There is one scale at which a number lies between one and two.
proof fn lemma_same_scale(n: nat, a: nat, b: nat)
    requires
        0 < n,
        32_767 <= n * pow2(a) < 65_534,
        32_767 <= n * pow2(b) < 65_534,
    ensures
        a == b,
{
    if a < b {
        lemma_scale_doubles(n, a, b);
    } else if b < a {
        lemma_scale_doubles(n, b, a);
    }
}

proof fn lemma_scale_doubles(n: nat, a: nat, b: nat)
    requires
        a < b,
    ensures
        2 * (n * pow2(a)) <= n * pow2(b),
    decreases b - a,
{
    lemma_pow2_unfold(b);
    let half = pow2((b - 1) as nat);
    assert(n * (2 * half) == 2 * (n * half)) by (nonlinear_arith);
    if a + 1 < b {
        lemma_scale_doubles(n, a, (b - 1) as nat);
    }
}

/// The loop takes packets as long as there are any, delivered or not, and waits for
/// the device otherwise; it ends with the device or with the receiver.
pub proof fn law_loopback_drains_the_queue()
    ensures
        loopback_course(LoopbackEvent::Read) == LoopbackAction::TakePacket,
        loopback_course(LoopbackEvent::Delivered) == LoopbackAction::TakePacket,
        loopback_course(LoopbackEvent::ReceiverFull) == LoopbackAction::TakePacket,
        loopback_course(LoopbackEvent::QueueShort) == LoopbackAction::Wait,
        loopback_course(LoopbackEvent::Idle { receiver_gone: false }) == LoopbackAction::Wait,
        loopback_course(LoopbackEvent::Idle { receiver_gone: true }) == LoopbackAction::Stop,
        loopback_course(LoopbackEvent::ReadFailed) == LoopbackAction::Stop,
        loopback_course(LoopbackEvent::ReceiverGone) == LoopbackAction::Stop,
{
}

/// Packets come off a queue in the order of its bytes: a queue that starts with a
/// packet gives that packet and keeps what follows it, and one that is shorter than
/// a packet gives nothing and keeps everything.
pub proof fn law_packets_come_in_order(packet: Seq<u8>, rest: Seq<u8>, short: Seq<u8>)
    ensures
        packet_off(packet + rest, packet.len()) == (rest, Some(samples_of(packet))),
        short.len() < packet.len() ==> packet_off(short, packet.len()) == (
            short,
            None::<Seq<u32>>,
        ),
{
    assert((packet + rest).take(packet.len() as int) =~= packet);
    assert((packet + rest).skip(packet.len() as int) =~= rest);
}

/// The contents of a list of buffers are those of its buffers, in order.
pub proof fn law_contents_in_order(buffers: Seq<&[u8]>, i: int)
    requires
        0 <= i < buffers.len(),
    ensures
        contents(buffers).len() == buffers.len(),
        contents(buffers)[i] == buffers[i]@,
{
}

/// A packet is twenty milliseconds at 48 kHz.
pub proof fn law_packet_is_twenty_milliseconds()
    ensures
        1000 * FRAME_SAMPLES == 20 * 48_000,
{
}

} // verus!
