//! Relay fallback over a WebSocket.
//!
//! This module holds the wire format of a relayed frame. [`congestion`] holds
//! the bandwidth controller, [`relay`] the decisions of the relay loops.

pub mod congestion;
pub mod relay;

use crate::webrtc_client::sender::{EncodedFrame, FrameView};
use crate::wire::{
    law_value_of_eight_bytes, le_bytes, le_value, lemma_le_read_back, lemma_le_write_back, pow256,
    push_u64_le, read_le,
};
use vstd::prelude::*;

verus! {

/// Bytes before the payload: stream, flags and timestamp.
pub const HEADER_LEN: usize = 10;

/// Layout of a frame on the wire: stream, flags (1 for a keyframe, 0 for a
/// delta), the timestamp as a little-endian 64-bit number, then the payload.
pub open spec fn wire_format(f: FrameView) -> Seq<u8> {
    seq![f.stream, if f.keyframe { 1u8 } else { 0u8 }] + le_bytes(f.timestamp_us as nat, 8) + f.data
}

/// What a buffer of at least [`HEADER_LEN`] bytes says. Only the lowest flag
/// bit counts.
pub open spec fn parsed(b: Seq<u8>) -> FrameView {
    FrameView {
        stream: b[0],
        keyframe: b[1] % 2 == 1,
        timestamp_us: le_value(b.subrange(2, 10)) as u64,
        data: b.skip(10),
    }
}

/// A frame read off the wire.
pub struct ParsedFrame {
    pub stream: u8,
    pub keyframe: bool,
    pub timestamp_us: u64,
    pub data: Vec<u8>,
}

impl View for ParsedFrame {
    type V = FrameView;

    open spec fn view(&self) -> FrameView {
        FrameView {
            stream: self.stream,
            keyframe: self.keyframe,
            timestamp_us: self.timestamp_us,
            data: self.data@,
        }
    }
}

/// Serializes a frame into the relay's wire format.
///
/// Layout, little-endian throughout: `[stream(1) | flags(1) | ts_us(8) |
/// payload]`. The browser viewer parses the same bytes, so the layout is
/// load-bearing.
pub fn frame_to_bytes(f: &EncodedFrame) -> (out: Vec<u8>)
    ensures
        out@ == wire_format(f@),
{
    let mut out: Vec<u8> = Vec::new();
    out.push(f.stream);
    out.push(
        if f.keyframe {
            1
        } else {
            0
        },
    );
    push_u64_le(&mut out, f.timestamp_us);
    let ghost header = out@;
    out.extend_from_slice(f.data.as_slice());
    assert(out@ =~= header + f.data@);
    assert(out@ =~= wire_format(f@));
    out
}

/// Inverse of [`frame_to_bytes`]. `None` for buffers shorter than the header.
pub fn parse_frame(b: &[u8]) -> (r: Option<ParsedFrame>)
    ensures
        r is Some <==> b@.len() >= HEADER_LEN,
        r matches Some(f) ==> f@ == parsed(b@),
{
    if b.len() < HEADER_LEN {
        return None;
    }
    let timestamp_us = read_le(b, 2, 8);
    let payload = &b[10..b.len()];
    let mut data: Vec<u8> = Vec::new();
    data.extend_from_slice(payload);
    assert(data@ =~= b@.skip(10));
    Some(ParsedFrame { stream: b[0], keyframe: b[1] % 2 == 1, timestamp_us, data })
}

/// Parsing what was written gives the frame back, whatever the frame holds.
pub proof fn law_roundtrip(f: FrameView)
    ensures
        wire_format(f).len() == HEADER_LEN + f.data.len(),
        parsed(wire_format(f)) == f,
{
    let n = f.timestamp_us as nat;
    assert(n < pow256(8)) by {
        reveal_with_fuel(pow256, 9);
    }
    lemma_le_read_back(n, 8);
    let w = wire_format(f);
    assert(w.subrange(2, 10) =~= le_bytes(n, 8));
    assert(w.skip(10) =~= f.data);
}

/// Two frames with the same bytes on the wire are the same frame.
pub proof fn law_wire_format_injective(f: FrameView, g: FrameView)
    requires
        wire_format(f) == wire_format(g),
    ensures
        f == g,
{
    law_roundtrip(f);
    law_roundtrip(g);
}

/// Where each field stands: stream in byte 0, keyframe flag in byte 1, the
/// timestamp as a little-endian number in bytes 2 to 9, the payload after.
pub proof fn law_header_layout(f: FrameView)
    ensures
        wire_format(f)[0] == f.stream,
        wire_format(f)[1] == if f.keyframe { 1u8 } else { 0u8 },
        le_value(wire_format(f).subrange(2, 10)) == f.timestamp_us,
        wire_format(f).skip(10) == f.data,
{
    law_roundtrip(f);
    let n = f.timestamp_us as nat;
    assert(n < pow256(8)) by {
        reveal_with_fuel(pow256, 9);
    }
    lemma_le_read_back(n, 8);
    assert(wire_format(f).subrange(2, 10) =~= le_bytes(n, 8));
}

/// Parsing and writing again gives the bytes back, except that of the flags
/// only the keyframe bit is kept.
pub proof fn law_parse_then_write(b: Seq<u8>)
    requires
        b.len() >= HEADER_LEN,
    ensures
        wire_format(parsed(b)) == b.update(1, b[1] % 2),
{
    let ts = b.subrange(2, 10);
    lemma_le_write_back(ts);
    assert(pow256(8) == 0x1_0000_0000_0000_0000) by {
        reveal_with_fuel(pow256, 9);
    }
    assert(le_bytes(parsed(b).timestamp_us as nat, 8) == ts);
    assert(wire_format(parsed(b)) =~= b.update(1, b[1] % 2));
}

/// The bytes of a frame on the wire, one by one: whatever the timestamp, its eight
/// bytes add up to it, lowest first.
pub proof fn law_bytes_on_the_wire(f: FrameView, i: int)
    ensures
        ({
            let w = wire_format(f);
            &&& w.len() == 10 + f.data.len()
            &&& w[0] == f.stream
            &&& f.keyframe ==> w[1] == 1
            &&& !f.keyframe ==> w[1] == 0
            &&& f.timestamp_us == w[2] + 0x100 * w[3] + 0x1_0000 * w[4] + 0x100_0000 * w[5]
                + 0x1_0000_0000 * w[6] + 0x100_0000_0000 * w[7] + 0x1_0000_0000_0000 * w[8]
                + 0x100_0000_0000_0000 * w[9]
            &&& 0 <= i < f.data.len() ==> w[10 + i] == f.data[i]
        }),
{
    law_header_layout(f);
    law_roundtrip(f);
    let field = wire_format(f).subrange(2, 10);
    law_value_of_eight_bytes(field);
    assert(0 <= i < f.data.len() ==> wire_format(f).skip(10)[i] == wire_format(f)[10 + i]);
}

/// What is read off the wire, byte by byte.
pub proof fn law_fields_off_the_wire(b: Seq<u8>, i: int)
    requires
        b.len() >= 10,
    ensures
        ({
            let f = parsed(b);
            &&& f.stream == b[0]
            &&& f.keyframe <==> b[1] % 2 == 1
            &&& f.timestamp_us == b[2] + 0x100 * b[3] + 0x1_0000 * b[4] + 0x100_0000 * b[5]
                + 0x1_0000_0000 * b[6] + 0x100_0000_0000 * b[7] + 0x1_0000_0000_0000 * b[8]
                + 0x100_0000_0000_0000 * b[9]
            &&& f.data.len() == b.len() - 10
            &&& 10 <= i < b.len() ==> f.data[i - 10] == b[i]
        }),
{
    law_value_of_eight_bytes(b.subrange(2, 10));
    lemma_le_write_back(b.subrange(2, 10));
}

/// The view of a frame read off the wire holds what the frame holds.
pub proof fn law_view_of_parsed_frame(f: ParsedFrame)
    ensures
        f@.stream == f.stream,
        f@.keyframe == f.keyframe,
        f@.timestamp_us == f.timestamp_us,
        f@.data == f.data@,
{
}

} // verus!
