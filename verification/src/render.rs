//! Native viewing: from packets to pictures.
//!
//! Packets of a remote VP8 track are put together into encoded frames by a
//! [`FrameAssembler`]. What the decoder makes of them arrives as I420 planes and
//! leaves as RGBA.

use vstd::arithmetic::div_mod::lemma_fundamental_div_mod_converse;
use vstd::prelude::*;
use webrtc::rtp::codecs::vp8::Vp8Packet;
use webrtc::rtp::packetizer::Depacketizer;

verus! {

/// A picture ready to be shown.
pub struct DecodedFrame {
    pub width: u32,
    pub height: u32,
    pub rgba: Vec<u8>,
}

/// A picture as it comes out of the decoder.
pub struct Decoded {
    pub width: u32,
    pub height: u32,
    pub rgba: Vec<u8>,
}

/// Which optional fields the last extended VP8 payload descriptor announced, 1
/// for present: picture id, `TL0PICIDX`, temporal layer and key index.
#[derive(Clone, Copy)]
pub struct Vp8Flags {
    pub i: u8,
    pub l: u8,
    pub t: u8,
    pub k: u8,
}

/// No optional field announced.
pub open spec fn no_flags() -> Vp8Flags {
    Vp8Flags { i: 0, l: 0, t: 0, k: 0 }
}

/// Flags after a packet: those of its second byte if the packet is extended,
/// which the top bit of the first byte says, and unchanged otherwise.
pub open spec fn flags_after(flags: Vp8Flags, packet: Seq<u8>) -> Vp8Flags {
    if packet.len() >= 4 && packet[0] >= 128 {
        Vp8Flags {
            i: packet[1] / 128,
            l: packet[1] / 64 % 2,
            t: packet[1] / 32 % 2,
            k: packet[1] / 16 % 2,
        }
    } else {
        flags
    }
}

/// Length of the payload descriptor of a packet with these flags.
pub open spec fn descriptor_len(flags: Vp8Flags, packet: Seq<u8>) -> int {
    let extended: int = if packet[0] >= 128 {
        1
    } else {
        0
    };
    let picture_id: int = if flags.i != 1 {
        0
    } else if packet[1 + extended] >= 128 {
        2
    } else {
        1
    };
    let tl0: int = if flags.l == 1 {
        1
    } else {
        0
    };
    let layer: int = if flags.t == 1 || flags.k == 1 {
        1
    } else {
        0
    };
    1 + extended + picture_id + tl0 + layer
}

/// VP8 data of a packet, given the flags from before it. `None` if the packet is
/// shorter than four bytes or ends with its descriptor.
pub open spec fn vp8_payload(flags: Vp8Flags, packet: Seq<u8>) -> Option<Seq<u8>> {
    let start = descriptor_len(flags_after(flags, packet), packet);
    if packet.len() < 4 || start >= packet.len() {
        None
    } else {
        Some(packet.skip(start))
    }
}

/// Calls `Vp8Packet::depacketize` of `webrtc::rtp` on a depacketizer that has
/// seen these flags.
///
/// The contract says which flags the depacketizer ends up with, and which part of
/// the packet it hands out. Flags carry over to packets that are not extended.
#[verifier::external_body]
fn depacketize(flags: Vp8Flags, packet: &[u8]) -> (r: (Vp8Flags, Option<Vec<u8>>))
    ensures
        r.0 == flags_after(flags, packet@),
        r.1 is Some <==> vp8_payload(flags, packet@) is Some,
        r.1 matches Some(p) ==> vp8_payload(flags, packet@) == Some(p@),
{
    let mut p = Vp8Packet { i: flags.i, l: flags.l, t: flags.t, k: flags.k, ..Default::default() };
    match p.depacketize(&packet.to_vec().into()) {
        Ok(data) => (Vp8Flags { i: p.i, l: p.l, t: p.t, k: p.k }, Some(data.to_vec())),
        Err(_) => (Vp8Flags { i: p.i, l: p.l, t: p.t, k: p.k }, None),
    }
}

/// What a packet led to.
pub enum PacketOutcome {
    /// The packet holds no VP8 data and was passed over.
    Rejected,
    /// The packet was added to the frame in progress.
    Buffered,
    /// The packet completed this encoded frame.
    Frame(Vec<u8>),
}

/// Frame in progress after a packet with this payload, and the frame that the
/// packet completed, if any. A packet without payload changes nothing.
pub open spec fn assemble(buf: Seq<u8>, payload: Option<Seq<u8>>, marker: bool) -> (
    Seq<u8>,
    Option<Seq<u8>>,
) {
    match payload {
        None => (buf, None),
        Some(p) => if marker {
            (Seq::empty(), Some(buf + p))
        } else {
            (buf + p, None)
        },
    }
}

/// Puts the packets of a VP8 track together into encoded frames.
pub struct FrameAssembler {
    pub flags: Vp8Flags,
    /// VP8 data of the frame in progress.
    pub buf: Vec<u8>,
}

impl FrameAssembler {
    pub fn new() -> (a: FrameAssembler)
        ensures
            a.flags == no_flags(),
            a.buf@ == Seq::<u8>::empty(),
    {
        FrameAssembler { flags: Vp8Flags { i: 0, l: 0, t: 0, k: 0 }, buf: Vec::new() }
    }

    /// Flags and frame in progress after a packet, and the frame that it completed.
    pub open spec fn pushed(self, packet: Seq<u8>, marker: bool) -> (
        Vp8Flags,
        Seq<u8>,
        Option<Seq<u8>>,
    ) {
        let (buf, frame) = assemble(self.buf@, vp8_payload(self.flags, packet), marker);
        (flags_after(self.flags, packet), buf, frame)
    }

    /// Takes one packet. The marker says that it is the last of its frame.
    pub fn push(&mut self, packet: &[u8], marker: bool) -> (outcome: PacketOutcome)
        ensures
            ({
                let (flags, buf, frame) = old(self).pushed(packet@, marker);
                &&& final(self).flags == flags
                &&& final(self).buf@ == buf
                &&& outcome is Frame <==> frame is Some
                &&& outcome matches PacketOutcome::Frame(f) ==> frame == Some(f@)
            }),
            final(self).flags == flags_after(old(self).flags, packet@),
            ({
                let payload = vp8_payload(old(self).flags, packet@);
                let (buf, frame) = assemble(old(self).buf@, payload, marker);
                &&& final(self).buf@ == buf
                &&& outcome is Rejected <==> payload is None
                &&& outcome is Frame <==> frame is Some
                &&& outcome matches PacketOutcome::Frame(f) ==> frame == Some(f@)
            }),
    {
        let (flags, payload) = depacketize(self.flags, packet);
        self.flags = flags;
        match payload {
            None => PacketOutcome::Rejected,
            Some(p) => {
                let ghost before = self.buf@;
                self.buf.extend_from_slice(p.as_slice());
                assert(self.buf@ =~= before + p@);
                if marker {
                    let mut frame: Vec<u8> = Vec::new();
                    std::mem::swap(&mut frame, &mut self.buf);
                    PacketOutcome::Frame(frame)
                } else {
                    PacketOutcome::Buffered
                }
            },
        }
    }
}

/// Payloads one after the other.
pub open spec fn joined(payloads: Seq<Seq<u8>>) -> Seq<u8>
    decreases payloads.len(),
{
    if payloads.len() == 0 {
        Seq::empty()
    } else {
        joined(payloads.drop_last()) + payloads.last()
    }
}

/// Frame in progress after these payloads, none of them marked.
pub open spec fn in_progress(payloads: Seq<Seq<u8>>) -> Seq<u8>
    decreases payloads.len(),
{
    if payloads.len() == 0 {
        Seq::empty()
    } else {
        assemble(in_progress(payloads.drop_last()), Some(payloads.last()), false).0
    }
}

/// A frame cut into packets of which only the last is marked comes out whole,
/// and the next frame starts afresh.
pub proof fn law_frame_comes_out_whole(payloads: Seq<Seq<u8>>)
    requires
        payloads.len() > 0,
    ensures
        assemble(in_progress(payloads.drop_last()), Some(payloads.last()), true) == (
            Seq::<u8>::empty(),
            Some(joined(payloads)),
        ),
{
    lemma_in_progress(payloads.drop_last());
}

proof fn lemma_in_progress(payloads: Seq<Seq<u8>>)
    ensures
        in_progress(payloads) == joined(payloads),
    decreases payloads.len(),
{
    if payloads.len() > 0 {
        lemma_in_progress(payloads.drop_last());
    }
}

/// What to do with an encoded frame.
#[derive(Clone, Copy, Debug, PartialEq, Eq, Structural)]
pub enum DecodePlan {
    /// There is nothing to decode.
    Skip,
    /// Initialise the decoder first.
    Initialise,
    Decode,
}

/// Life of a decoder that is initialised when it is first needed.
#[derive(Clone, Copy)]
pub struct DecoderLife {
    /// Whether the decoder was initialised, and has to be destroyed one day.
    pub initialised: bool,
}

impl DecoderLife {
    pub fn new() -> (d: DecoderLife)
        ensures
            !d.initialised,
    {
        DecoderLife { initialised: false }
    }

    /// What is to be done with an encoded frame of this many bytes.
    pub open spec fn planned(self, len: usize) -> DecodePlan {
        if len == 0 {
            DecodePlan::Skip
        } else if self.initialised {
            DecodePlan::Decode
        } else {
            DecodePlan::Initialise
        }
    }

    /// The decoder after an attempt to initialise it, and what is to be done then.
    pub open spec fn attempted(self, succeeded: bool) -> (DecoderLife, DecodePlan) {
        (
            DecoderLife { initialised: self.initialised || succeeded },
            if succeeded {
                DecodePlan::Decode
            } else {
                DecodePlan::Skip
            },
        )
    }

    /// What to do with an encoded frame of this many bytes.
    pub fn plan(&self, len: usize) -> (p: DecodePlan)
        ensures
            p == self.planned(len),
            p == if len == 0 {
                DecodePlan::Skip
            } else if self.initialised {
                DecodePlan::Decode
            } else {
                DecodePlan::Initialise
            },
    {
        if len == 0 {
            DecodePlan::Skip
        } else if self.initialised {
            DecodePlan::Decode
        } else {
            DecodePlan::Initialise
        }
    }

    /// Goes on after an attempt to initialise. A failed attempt skips the frame,
    /// and the next frame tries again.
    pub fn initialisation(&mut self, succeeded: bool) -> (p: DecodePlan)
        ensures
            (*final(self), p) == old(self).attempted(succeeded),
            final(self).initialised == (old(self).initialised || succeeded),
            p == if succeeded {
                DecodePlan::Decode
            } else {
                DecodePlan::Skip
            },
    {
        if succeeded {
            self.initialised = true;
            DecodePlan::Decode
        } else {
            DecodePlan::Skip
        }
    }
}

/// A colour value held to a byte, from 256ths.
pub open spec fn to_byte(scaled: int) -> u8 {
    let n = scaled / 256;
    if n < 0 {
        0
    } else if n > 255 {
        255
    } else {
        n as u8
    }
}

/// Component `c` of a pixel's RGBA value, from BT.601 limited-range luma and
/// chroma. Coefficients are in 256ths.
pub open spec fn rgba_component(y: u8, u: u8, v: u8, c: int) -> u8 {
    let luma = 298 * (y - 16);
    if c == 0 {
        to_byte(luma + 409 * (v - 128) + 128)
    } else if c == 1 {
        to_byte(luma - 100 * (u - 128) - 208 * (v - 128) + 128)
    } else if c == 2 {
        to_byte(luma + 516 * (u - 128) + 128)
    } else {
        255
    }
}

/// Three planes of an I420 picture with the distance between their rows.
pub struct I420Planes<'a> {
    pub y: &'a [u8],
    pub y_stride: usize,
    pub u: &'a [u8],
    pub u_stride: usize,
    pub v: &'a [u8],
    pub v_stride: usize,
}

impl<'a> I420Planes<'a> {
    /// Whether the planes hold a picture of this size.
    pub open spec fn hold(self, width: int, height: int) -> bool {
        width > 0 && height > 0 ==> {
            &&& self.y_stride * (height - 1) + width <= self.y@.len()
            &&& self.u_stride * ((height - 1) / 2) + (width - 1) / 2 < self.u@.len()
            &&& self.v_stride * ((height - 1) / 2) + (width - 1) / 2 < self.v@.len()
        }
    }

    /// Component `c` of the pixel in column `x` of row `y`. Two by two pixels
    /// share their chroma.
    pub open spec fn component(self, x: int, y: int, c: int) -> u8 {
        rgba_component(
            self.y@[self.y_stride * y + x],
            self.u@[self.u_stride * (y / 2) + x / 2],
            self.v@[self.v_stride * (y / 2) + x / 2],
            c,
        )
    }

    /// The picture in RGBA, four bytes per pixel.
    pub open spec fn rgba(self, width: int, height: int) -> Seq<u8> {
        Seq::new(
            (4 * width * height) as nat,
            |i: int| self.component((i % (4 * width)) / 4, i / (4 * width), i % 4),
        )
    }
}

fn clamp_scaled(scaled: i32) -> (b: u8)
    ensures
        b == to_byte(scaled as int),
{
    if scaled < 0 {
        0
    } else {
        let n: i32 = scaled / 256;
        if n > 255 {
            255
        } else {
            n as u8
        }
    }
}

fn push_pixel(out: &mut Vec<u8>, y: u8, u: u8, v: u8)
    ensures
        final(out)@ == old(out)@ + Seq::new(4, |c: int| rgba_component(y, u, v, c)),
{
    let ghost before = out@;
    let yv: i32 = y as i32 - 16;
    let uv: i32 = u as i32 - 128;
    let vv: i32 = v as i32 - 128;
    let luma: i32 = 298 * yv;
    out.push(clamp_scaled(luma + 409 * vv + 128));
    out.push(clamp_scaled(luma - 100 * uv - 208 * vv + 128));
    out.push(clamp_scaled(luma + 516 * uv + 128));
    out.push(255);
    assert(out@ =~= before + Seq::new(4, |c: int| rgba_component(y, u, v, c)));
}

proof fn lemma_rgba_position(width: int, x: int, y: int, c: int)
    requires
        0 <= x < width,
        0 <= y,
        0 <= c < 4,
    ensures
        (4 * width * y + 4 * x + c) / (4 * width) == y,
        ((4 * width * y + 4 * x + c) % (4 * width)) / 4 == x,
        (4 * width * y + 4 * x + c) % 4 == c,
{
    let row = 4 * width;
    vstd::arithmetic::mul::lemma_mul_is_commutative(row, y);
    lemma_fundamental_div_mod_converse(row * y + (4 * x + c), row, y, 4 * x + c);
    assert(row * y == 4 * (width * y)) by (nonlinear_arith)
        requires
            row == 4 * width,
    ;
}

/// Converts an I420 picture to RGBA with BT.601 limited-range coefficients. Rows
/// are found by stride, which is usually larger than the width.
pub fn i420_to_rgba(planes: &I420Planes, width: u32, height: u32) -> (d: Decoded)
    requires
        4 * width * height <= usize::MAX,
        planes.hold(width as int, height as int),
    ensures
        d.width == width,
        d.height == height,
        d.rgba@ == planes.rgba(width as int, height as int),
{
    let mut rgba: Vec<u8> = Vec::new();
    let ghost w = width as int;
    let ghost whole = planes.rgba(w, height as int);
    if width == 0 {
        assert(4 * width * height == 0) by (nonlinear_arith)
            requires
                width == 0,
        ;
        assert(rgba@ =~= whole);
        return Decoded { width, height, rgba };
    }
    let y_len = planes.y.len();
    let u_len = planes.u.len();
    let v_len = planes.v.len();
    assert(whole.take(0) =~= rgba@);
    assert(4 * w * 0 == 0);
    let mut y: u32 = 0;
    while y < height
        invariant
            y <= height,
            0 < width,
            w == width,
            y_len == planes.y@.len(),
            u_len == planes.u@.len(),
            v_len == planes.v@.len(),
            planes.hold(w, height as int),
            whole == planes.rgba(w, height as int),
            0 <= 4 * w * y <= whole.len(),
            rgba@ == whole.take(4 * w * y),
        decreases height - y,
    {
        let half = y / 2;
        proof {
            let last = (height - 1) / 2;
            assert(planes.y_stride * y <= planes.y_stride * (height - 1)) by (nonlinear_arith)
                requires
                    0 <= planes.y_stride,
                    y <= height - 1,
            ;
            assert(planes.u_stride * half <= planes.u_stride * last) by (nonlinear_arith)
                requires
                    0 <= planes.u_stride,
                    half <= last,
            ;
            assert(planes.v_stride * half <= planes.v_stride * last) by (nonlinear_arith)
                requires
                    0 <= planes.v_stride,
                    half <= last,
            ;
            assert(0 <= planes.y_stride * y) by (nonlinear_arith)
                requires
                    0 <= planes.y_stride,
                    0 <= y,
            ;
            assert(0 <= planes.u_stride * half) by (nonlinear_arith)
                requires
                    0 <= planes.u_stride,
                    0 <= half,
            ;
            assert(0 <= planes.v_stride * half) by (nonlinear_arith)
                requires
                    0 <= planes.v_stride,
                    0 <= half,
            ;
            assert(4 * w * (y + 1) == 4 * w * y + 4 * w) by (nonlinear_arith);
            assert(4 * w * (y + 1) <= 4 * w * height) by (nonlinear_arith)
                requires
                    0 < w,
                    y + 1 <= height,
            ;
        }
        let y_row: usize = planes.y_stride * y as usize;
        let u_row: usize = planes.u_stride * half as usize;
        let v_row: usize = planes.v_stride * half as usize;
        let mut x: u32 = 0;
        while x < width
            invariant
                x <= width,
                y < height,
                half == y / 2,
                w == width,
                y_len == planes.y@.len(),
                u_len == planes.u@.len(),
                v_len == planes.v@.len(),
                y_row == planes.y_stride * y,
                u_row == planes.u_stride * half,
                v_row == planes.v_stride * half,
                y_row + width <= y_len,
                u_row + (width - 1) / 2 < u_len,
                v_row + (width - 1) / 2 < v_len,
                whole == planes.rgba(w, height as int),
                0 <= 4 * w * y,
                4 * w * y + 4 * w <= whole.len(),
                rgba@ == whole.take(4 * w * y + 4 * x),
            decreases width - x,
        {
            let ghost before = rgba@;
            let ys = planes.y[y_row + x as usize];
            let us = planes.u[u_row + (x / 2) as usize];
            let vs = planes.v[v_row + (x / 2) as usize];
            push_pixel(&mut rgba, ys, us, vs);
            proof {
                lemma_rgba_position(w, x as int, y as int, 0);
                lemma_rgba_position(w, x as int, y as int, 1);
                lemma_rgba_position(w, x as int, y as int, 2);
                lemma_rgba_position(w, x as int, y as int, 3);
                assert(rgba@ =~= whole.take(4 * w * y + 4 * (x + 1)));
            }
            x = x + 1;
        }
        y = y + 1;
    }
    assert(whole.take(4 * w * height) =~= whole);
    Decoded { width, height, rgba }
}

/// Every pixel of a picture is opaque, and has the colour of its own luma and
/// of the chroma shared by its two by two pixels.
pub proof fn law_pixel_of_picture(
    planes: I420Planes<'_>,
    width: int,
    height: int,
    x: int,
    y: int,
    c: int,
)
    requires
        0 <= x < width,
        0 <= y < height,
        0 <= c < 4,
    ensures
        0 <= 4 * width * y + 4 * x + c < planes.rgba(width, height).len(),
        planes.rgba(width, height)[4 * width * y + 4 * x + c] == planes.component(x, y, c),
        planes.rgba(width, height)[4 * width * y + 4 * x + 3] == 255,
{
    lemma_rgba_position(width, x, y, c);
    lemma_rgba_position(width, x, y, 3);
    assert(0 <= 4 * width * y) by (nonlinear_arith)
        requires
            0 < width,
            0 <= y,
    ;
    assert(4 * width * y + 4 * width <= 4 * width * height) by (nonlinear_arith)
        requires
            0 < width,
            y + 1 <= height,
    ;
}

/// Neutral chroma gives a shade of grey.
pub proof fn law_neutral_chroma_is_grey(y: u8)
    ensures
        rgba_component(y, 128, 128, 0) == rgba_component(y, 128, 128, 1),
        rgba_component(y, 128, 128, 1) == rgba_component(y, 128, 128, 2),
{
}

/// Whether the texture on screen does not fit a frame of this size.
pub open spec fn is_misfit(current: Option<(u32, u32)>, width: u32, height: u32) -> bool {
    current != Some((width, height))
}

/// A texture is made for the first frame and for every change of size, and fits from
/// then on.
pub proof fn law_texture_fits_its_size(w: u32, h: u32, width: u32, height: u32)
    ensures
        is_misfit(None, width, height),
        is_misfit(Some((w, h)), width, height) <==> w != width || h != height,
{
}

/// Whether a frame needs a texture of its own rather than new contents for the
/// one there is: the first frame, and every change of size.
pub fn needs_new_texture(current: Option<(u32, u32)>, width: u32, height: u32) -> (r: bool)
    ensures
        r == is_misfit(current, width, height),
        r == (current != Some((width, height))),
{
    match current {
        Some((w, h)) => w != width || h != height,
        None => true,
    }
}

/// The pixel in column `x` of row `y` is made of the luma byte at that very place
/// and of the chroma bytes at half of it, found by the strides of the planes.
pub proof fn law_pixel_comes_from_its_place(
    planes: I420Planes<'_>,
    width: int,
    height: int,
    x: int,
    y: int,
    c: int,
)
    requires
        0 <= x < width,
        0 <= y < height,
        0 <= c < 4,
    ensures
        planes.rgba(width, height).len() == 4 * width * height,
        planes.rgba(width, height)[4 * width * y + 4 * x + c] == rgba_component(
            planes.y@[planes.y_stride * y + x],
            planes.u@[planes.u_stride * (y / 2) + x / 2],
            planes.v@[planes.v_stride * (y / 2) + x / 2],
            c,
        ),
{
    law_pixel_of_picture(planes, width, height, x, y, c);
    assert(0 <= 4 * width * height) by (nonlinear_arith)
        requires
            0 < width,
            0 < height,
    ;
}

/// `b` is `n / 256` held to a byte, fraction cut off.
pub open spec fn is_held(b: u8, n: int) -> bool {
    &&& n < 0 ==> b == 0
    &&& 0 <= n < 65_536 ==> 256 * b <= n < 256 * b + 256
    &&& n >= 65_536 ==> b == 255
}

/// The colour of a pixel, in 256ths: BT.601 limited range, rounded to the nearest
/// and held to a byte, red, green, blue and opaque.
pub proof fn law_colour_of_pixel(y: u8, u: u8, v: u8)
    ensures
        is_held(rgba_component(y, u, v, 0), 298 * (y - 16) + 409 * (v - 128) + 128),
        is_held(
            rgba_component(y, u, v, 1),
            298 * (y - 16) - 100 * (u - 128) - 208 * (v - 128) + 128,
        ),
        is_held(rgba_component(y, u, v, 2), 298 * (y - 16) + 516 * (u - 128) + 128),
        rgba_component(y, u, v, 3) == 255,
{
}

/// Black and white come out as black and white, and more luma never comes out
/// darker.
pub proof fn law_luma_is_brightness(y1: u8, y2: u8, u: u8, v: u8, c: int)
    requires
        y1 <= y2,
        0 <= c < 3,
    ensures
        rgba_component(y1, u, v, c) <= rgba_component(y2, u, v, c),
        y1 <= 16 ==> rgba_component(y1, 128, 128, c) == 0,
        y2 >= 235 ==> rgba_component(y2, 128, 128, c) == 255,
{
}

/// What a packet's payload adds to the frame in progress, and what it completes.
pub proof fn law_packet_extends_or_completes(buf: Seq<u8>, payload: Seq<u8>, marker: bool)
    ensures
        assemble(buf, Some(payload), true) == (Seq::<u8>::empty(), Some(buf + payload)),
        assemble(buf, Some(payload), false) == (buf + payload, None::<Seq<u8>>),
        assemble(buf, None, marker) == (buf, None::<Seq<u8>>),
{
}

/// A plain packet, whose first byte has its top bit clear, carries its data after
/// one byte, unless an extended packet has announced optional fields before.
pub proof fn law_plain_packet_has_one_byte_of_descriptor(packet: Seq<u8>)
    requires
        packet.len() >= 4,
        packet[0] < 128,
    ensures
        vp8_payload(no_flags(), packet) == Some(packet.skip(1)),
        flags_after(no_flags(), packet) == no_flags(),
{
}

/// An extended packet says in the top four bits of its second byte which optional
/// fields follow: a picture id of one byte, or of two if its own top bit is set; one
/// byte for the layer index; and one byte for the temporal layer, the key index or
/// both. The data comes after them, whatever was announced before.
pub proof fn law_extended_packet_announces_its_descriptor(
    flags: Vp8Flags,
    packet: Seq<u8>,
    start: int,
)
    requires
        packet.len() >= 4,
        packet[0] >= 128,
        ({
            let bits = packet[1] / 16;
            let id: int = if bits < 8 {
                0
            } else if packet[2] < 128 {
                1
            } else {
                2
            };
            let index: int = if bits % 8 >= 4 {
                1
            } else {
                0
            };
            let layer: int = if bits % 4 != 0 {
                1
            } else {
                0
            };
            start == 2 + id + index + layer
        }),
    ensures
        start < packet.len() ==> vp8_payload(flags, packet) == Some(
            packet.subrange(start, packet.len() as int),
        ),
        start >= packet.len() ==> vp8_payload(flags, packet) is None,
{
    if start < packet.len() {
        assert(packet.skip(start) =~= packet.subrange(start, packet.len() as int));
    }
}

/// A packet of less than four bytes holds no data and announces nothing.
pub proof fn law_short_packet_holds_nothing(flags: Vp8Flags, packet: Seq<u8>)
    requires
        packet.len() < 4,
    ensures
        vp8_payload(flags, packet) is None,
        flags_after(flags, packet) == flags,
{
}

/// A packet goes through the assembler exactly once: its data ends the frame in
/// progress if it is marked, lengthens it if not, and a packet without data leaves
/// it as it was.
pub proof fn law_assembler_takes_each_packet_once(
    a: FrameAssembler,
    packet: Seq<u8>,
    marker: bool,
)
    ensures
        ({
            let (flags, buf, frame) = a.pushed(packet, marker);
            &&& flags == flags_after(a.flags, packet)
            &&& match vp8_payload(a.flags, packet) {
                Some(data) => if marker {
                    buf.len() == 0 && frame == Some(a.buf@ + data)
                } else {
                    buf == a.buf@ + data && frame is None
                },
                None => buf == a.buf@ && frame is None,
            }
        }),
{
}

/// A decoder is initialised once, for the first frame that holds anything; until
/// that works every such frame tries again, and from then on every one is decoded.
pub proof fn law_decoder_is_initialised_once(d: DecoderLife, succeeded: bool, len: usize)
    ensures
        d.planned(0) == DecodePlan::Skip,
        len > 0 && !d.initialised ==> d.planned(len) == DecodePlan::Initialise,
        len > 0 && d.initialised ==> d.planned(len) == DecodePlan::Decode,
        d.attempted(true).1 == DecodePlan::Decode,
        d.attempted(false).1 == DecodePlan::Skip,
        len > 0 && !d.initialised ==> d.attempted(succeeded).0.planned(len) == if succeeded {
            DecodePlan::Decode
        } else {
            DecodePlan::Initialise
        },
        d.initialised ==> d.attempted(succeeded).0.initialised,
{
}

/// A plain packet announces nothing, but optional fields that an extended packet has
/// announced before it are still there, between its first byte and its data.
pub proof fn law_announced_fields_stay(flags: Vp8Flags, packet: Seq<u8>, start: int)
    requires
        packet.len() >= 4,
        packet[0] < 128,
        ({
            let id: int = if flags.i != 1 {
                0
            } else if packet[1] < 128 {
                1
            } else {
                2
            };
            let index: int = if flags.l == 1 {
                1
            } else {
                0
            };
            let layer: int = if flags.t == 1 || flags.k == 1 {
                1
            } else {
                0
            };
            start == 1 + id + index + layer
        }),
    ensures
        flags_after(flags, packet) == flags,
        start < packet.len() ==> vp8_payload(flags, packet) == Some(
            packet.subrange(start, packet.len() as int),
        ),
        start >= packet.len() ==> vp8_payload(flags, packet) is None,
{
    if start < packet.len() {
        assert(packet.skip(start) =~= packet.subrange(start, packet.len() as int));
    }
}

} // verus!
