//! Colour conversion in front of the video encoder.

use crate::capture::video::unpadded;
use crate::text::{decimal, decimal_text};
use vstd::prelude::*;
use yuvutils_rs::{
    bgra_to_yuv420, BufferStoreMut, YuvConversionMode, YuvError, YuvPlanarImageMut, YuvRange,
    YuvStandardMatrix,
};

verus! {

/// Why the converter refused an image.
#[derive(Debug, Clone, Copy, PartialEq, Eq, Structural)]
pub enum ConversionError {
    /// Width or height is zero.
    ZeroBaseSize,
    /// The image has more bytes than a pointer can address.
    PointerOverflow,
    /// The pixels end before the last row does: bytes expected, bytes received.
    DestinationSizeMismatch(usize, usize),
    /// The stride is shorter than a row: bytes expected, bytes received.
    MinimumStrideSizeMismatch(usize, usize),
    /// Anything else the converter may complain about.
    Other,
}

/// Why a frame could not be converted.
#[derive(Debug, Clone, Copy, PartialEq, Eq, Structural)]
pub enum CodecError {
    /// I420 samples chroma once per two by two pixels.
    OddDimensions,
    /// The buffer is shorter than `stride * height`.
    BufferTooSmall { len: usize, needed: usize },
    Conversion(ConversionError),
}

/// Text of a size mismatch.
pub open spec fn mismatch_message(name: Seq<char>, expected: usize, received: usize) -> Seq<char> {
    name + "(MismatchedSize { expected: "@ + decimal(expected as nat) + ", received: "@ + decimal(
        received as nat,
    ) + " })"@
}

impl ConversionError {
    pub open spec fn message(self) -> Seq<char> {
        match self {
            ConversionError::ZeroBaseSize => "ZeroBaseSize"@,
            ConversionError::PointerOverflow => "PointerOverflow"@,
            ConversionError::DestinationSizeMismatch(expected, received) => mismatch_message(
                "DestinationSizeMismatch"@,
                expected,
                received,
            ),
            ConversionError::MinimumStrideSizeMismatch(expected, received) => mismatch_message(
                "MinimumStrideSizeMismatch"@,
                expected,
                received,
            ),
            ConversionError::Other => "Other"@,
        }
    }

    pub fn to_string(&self) -> (r: String)
        ensures
            r@ == self.message(),
    {
        match self {
            ConversionError::ZeroBaseSize => "ZeroBaseSize".to_string(),
            ConversionError::PointerOverflow => "PointerOverflow".to_string(),
            ConversionError::DestinationSizeMismatch(expected, received) => mismatch_text(
                "DestinationSizeMismatch",
                *expected,
                *received,
            ),
            ConversionError::MinimumStrideSizeMismatch(expected, received) => mismatch_text(
                "MinimumStrideSizeMismatch",
                *expected,
                *received,
            ),
            ConversionError::Other => "Other".to_string(),
        }
    }
}

fn mismatch_text(name: &str, expected: usize, received: usize) -> (r: String)
    ensures
        r@ == mismatch_message(name@, expected, received),
{
    let mut r = name.to_string();
    r.append("(MismatchedSize { expected: ");
    r.append(decimal_text(expected as u64).as_str());
    r.append(", received: ");
    r.append(decimal_text(received as u64).as_str());
    r.append(" })");
    r
}

impl CodecError {
    pub open spec fn message(self) -> Seq<char> {
        match self {
            CodecError::OddDimensions => "width and height must be even for I420"@,
            CodecError::BufferTooSmall { len, needed } => "bgra buffer too small: "@ + decimal(
                len as nat,
            ) + " < "@ + decimal(needed as nat),
            CodecError::Conversion(e) => "bgra_to_yuv420: "@ + e.message(),
        }
    }

    pub fn to_string(&self) -> (r: String)
        ensures
            r@ == self.message(),
    {
        match self {
            CodecError::OddDimensions => "width and height must be even for I420".to_string(),
            CodecError::BufferTooSmall { len, needed } => {
                let mut r = "bgra buffer too small: ".to_string();
                r.append(decimal_text(*len as u64).as_str());
                r.append(" < ");
                r.append(decimal_text(*needed as u64).as_str());
                r
            },
            CodecError::Conversion(e) => {
                let mut r = "bgra_to_yuv420: ".to_string();
                r.append(e.to_string().as_str());
                r
            },
        }
    }
}

/// Bytes of an I420 image: a full luma plane and two quarter-size chroma planes.
pub open spec fn i420_len(width: nat, height: nat) -> nat {
    width * height + 2 * ((width / 2) * (height / 2))
}

/// Byte `channel` of the pixel in column `x` of row `y`: 0 for blue, 1 for
/// green, 2 for red.
pub open spec fn channel_at(bgra: Seq<u8>, stride: nat, x: int, y: int, channel: int) -> int {
    bgra[stride * y + 4 * x + channel] as int
}

/// Sum of one channel over the two by two pixels that share a chroma sample.
pub open spec fn block_sum(bgra: Seq<u8>, stride: nat, cx: int, cy: int, channel: int) -> int {
    channel_at(bgra, stride, 2 * cx, 2 * cy, channel) + channel_at(
        bgra,
        stride,
        2 * cx + 1,
        2 * cy,
        channel,
    ) + channel_at(bgra, stride, 2 * cx, 2 * cy + 1, channel) + channel_at(
        bgra,
        stride,
        2 * cx + 1,
        2 * cy + 1,
        channel,
    )
}

/// `value`, a whole number of `unit`s, is within six fifths of a unit of `exact`.
pub open spec fn is_close(value: int, exact: int, unit: int) -> bool {
    -6 * unit <= 5 * (unit * value - exact) <= 6 * unit
}

/// `sample` is within 1.2 of the BT.601 limited-range luma of a pixel,
/// `16 + 219/255 * (0.299 R + 0.587 G + 0.114 B)`.
pub open spec fn is_luma(sample: u8, b: int, g: int, r: int) -> bool {
    is_close(sample - 16, 219 * (299 * r + 587 * g + 114 * b), 255_000)
}

/// `sample` is within 1.2 of the BT.601 limited-range blue difference of four
/// pixels with these channel sums, `128 + 224/255 * (B - Y) / 1.772`.
pub open spec fn is_blue_chroma(sample: u8, b: int, g: int, r: int) -> bool {
    is_close(sample - 128, 224 * (886 * b - 587 * g - 299 * r), 1_807_440)
}

/// `sample` is within 1.2 of the BT.601 limited-range red difference of four
/// pixels with these channel sums, `128 + 224/255 * (R - Y) / 1.402`.
pub open spec fn is_red_chroma(sample: u8, b: int, g: int, r: int) -> bool {
    is_close(sample - 128, 224 * (701 * r - 587 * g - 114 * b), 1_430_040)
}

/// The luma plane of an image.
pub open spec fn is_luma_plane(
    plane: Seq<u8>,
    bgra: Seq<u8>,
    width: nat,
    height: nat,
    stride: nat,
) -> bool {
    forall|x: int, y: int|
        #![trigger plane[width * y + x]]
        0 <= x < width && 0 <= y < height ==> is_luma(
            plane[width * y + x],
            channel_at(bgra, stride, x, y, 0),
            channel_at(bgra, stride, x, y, 1),
            channel_at(bgra, stride, x, y, 2),
        )
}

/// The blue-difference plane of an image.
pub open spec fn is_blue_plane(
    plane: Seq<u8>,
    bgra: Seq<u8>,
    width: nat,
    height: nat,
    stride: nat,
) -> bool {
    forall|x: int, y: int|
        #![trigger plane[width / 2 * y + x]]
        0 <= x < width / 2 && 0 <= y < height / 2 ==> is_blue_chroma(
            plane[width / 2 * y + x],
            block_sum(bgra, stride, x, y, 0),
            block_sum(bgra, stride, x, y, 1),
            block_sum(bgra, stride, x, y, 2),
        )
}

/// The red-difference plane of an image.
pub open spec fn is_red_plane(
    plane: Seq<u8>,
    bgra: Seq<u8>,
    width: nat,
    height: nat,
    stride: nat,
) -> bool {
    forall|x: int, y: int|
        #![trigger plane[width / 2 * y + x]]
        0 <= x < width / 2 && 0 <= y < height / 2 ==> is_red_chroma(
            plane[width / 2 * y + x],
            block_sum(bgra, stride, x, y, 0),
            block_sum(bgra, stride, x, y, 1),
            block_sum(bgra, stride, x, y, 2),
        )
}

/// An I420 image: the three planes of a frame, one after the other.
pub open spec fn is_i420(
    out: Seq<u8>,
    bgra: Seq<u8>,
    width: nat,
    height: nat,
    stride: nat,
) -> bool {
    let y_size = (width * height) as int;
    let uv_size = ((width / 2) * (height / 2)) as int;
    &&& out.len() == i420_len(width, height)
    &&& is_luma_plane(out.subrange(0, y_size), bgra, width, height, stride)
    &&& is_blue_plane(out.subrange(y_size, y_size + uv_size), bgra, width, height, stride)
    &&& is_red_plane(out.skip(y_size + uv_size), bgra, width, height, stride)
}

proof fn lemma_plane_sizes(width: nat, height: nat)
    ensures
        0 <= width * height,
        0 <= (width / 2) * (height / 2),
{
    assert(0 <= width * height) by (nonlinear_arith);
    assert(0 <= (width / 2) * (height / 2)) by (nonlinear_arith);
}

/// What the converter says to an image of this shape in a buffer of `len` bytes.
pub open spec fn conversion_outcome(len: nat, width: u32, height: u32, stride: u32) -> Result<
    (),
    ConversionError,
> {
    if width == 0 || height == 0 {
        Err(ConversionError::ZeroBaseSize)
    } else if width * height * 4 > usize::MAX {
        Err(ConversionError::PointerOverflow)
    } else if len < stride * (height - 1) + 4 * width {
        Err(
            ConversionError::DestinationSizeMismatch(
                (stride * height) as usize,
                len as usize,
            ),
        )
    } else if stride < 4 * width {
        Err(
            ConversionError::MinimumStrideSizeMismatch(
                (4 * width) as usize,
                stride as usize,
            ),
        )
    } else {
        Ok(())
    }
}

/// The routines the converter has for its work. Which of them runs depends on the
/// instruction set of the machine alone.
pub ghost enum Routine {
    Portable,
    Sse,
    Avx2,
    Neon,
    NeonRdm,
}

/// The planes that `routine` makes of the pixels of an image, one after the other.
pub uninterp spec fn routine_output(
    routine: Routine,
    pixels: Seq<u8>,
    width: u32,
    height: u32,
) -> Seq<u8>;

/// `out` is what `routine` makes of the pixels of an image, the row padding left out.
pub open spec fn converted_by(
    routine: Routine,
    out: Seq<u8>,
    bgra: Seq<u8>,
    width: u32,
    height: u32,
    stride: u32,
) -> bool {
    out == routine_output(
        routine,
        unpadded(bgra, width as int, height as int, stride as int),
        width,
        height,
    )
}

/// Calls `yuvutils_rs::bgra_to_yuv420` for BT.601, limited range, on three
/// planes of exactly the size that the image needs and a buffer that holds all
/// its rows with their padding. (Of a buffer that lacks the padding of the last
/// row, the converter would pass over the last two rows.)
///
/// The contract says which shapes are refused and why, that a refusal leaves the
/// planes as they were, and that otherwise every sample is within 1.2 of the
/// real-valued BT.601 formula for its pixel, or for the mean of its two by two
/// pixels. The exact sample depends on the instruction set of the machine: the
/// planes are what one of the routines makes of the pixels, and neither the row
/// padding nor what the planes held before has a part in it.
#[verifier::external_body]
fn yuv420_from_bgra(
    y: &mut [u8],
    u: &mut [u8],
    v: &mut [u8],
    bgra: &[u8],
    width: u32,
    height: u32,
    chroma_width: u32,
    stride: u32,
) -> (r: Result<(), ConversionError>)
    requires
        width % 2 == 0,
        height % 2 == 0,
        chroma_width == width / 2,
        old(y)@.len() == width * height,
        old(u)@.len() == (width / 2) * (height / 2),
        old(v)@.len() == (width / 2) * (height / 2),
        stride * height <= bgra@.len(),
        stride * height + 4 * width <= usize::MAX,
    ensures
        r == conversion_outcome(bgra@.len(), width, height, stride),
        final(y)@.len() == old(y)@.len(),
        final(u)@.len() == old(u)@.len(),
        final(v)@.len() == old(v)@.len(),
        r is Err ==> final(y)@ == old(y)@ && final(u)@ == old(u)@ && final(v)@ == old(v)@,
        r is Ok ==> is_luma_plane(
            final(y)@,
            bgra@,
            width as nat,
            height as nat,
            stride as nat,
        ),
        r is Ok ==> is_blue_plane(final(u)@, bgra@, width as nat, height as nat, stride as nat),
        r is Ok ==> is_red_plane(final(v)@, bgra@, width as nat, height as nat, stride as nat),
        r is Ok ==> exists|routine: Routine|
            final(y)@ + (final(u)@ + final(v)@) == #[trigger] routine_output(
                routine,
                unpadded(bgra@, width as int, height as int, stride as int),
                width,
                height,
            ),
{
    let mut image = YuvPlanarImageMut {
        y_plane: BufferStoreMut::Borrowed(y), y_stride: width,
        u_plane: BufferStoreMut::Borrowed(u), u_stride: chroma_width,
        v_plane: BufferStoreMut::Borrowed(v), v_stride: chroma_width,
        width, height,
    };
    match bgra_to_yuv420(&mut image, bgra, stride, YuvRange::Limited, YuvStandardMatrix::Bt601, YuvConversionMode::Balanced) {
        Ok(()) => Ok(()),
        Err(YuvError::ZeroBaseSize) => Err(ConversionError::ZeroBaseSize),
        Err(YuvError::PointerOverflow) => Err(ConversionError::PointerOverflow),
        Err(YuvError::DestinationSizeMismatch(m)) => Err(ConversionError::DestinationSizeMismatch(m.expected, m.received)),
        Err(YuvError::MinimumStrideSizeMismatch(m)) => Err(ConversionError::MinimumStrideSizeMismatch(m.expected, m.received)),
        Err(_) => Err(ConversionError::Other),
    }
}

/// Sizes at which the arithmetic on an image of this shape stays within a
/// pointer's range. The buffer is only measured once the dimensions are known to
/// be even, and the planes only once the buffer is known to be long enough.
pub open spec fn addressable(len: nat, width: u32, height: u32, stride: u32) -> bool {
    width % 2 == 0 && height % 2 == 0 ==> {
        &&& stride * height <= usize::MAX
        &&& stride * height <= len ==> {
            &&& stride * height + 4 * width <= usize::MAX
            &&& i420_len(width as nat, height as nat) <= usize::MAX
        }
    }
}

/// What converting a frame of this shape comes to.
pub open spec fn codec_outcome(len: nat, width: u32, height: u32, stride: u32) -> Result<
    (),
    CodecError,
> {
    if width % 2 != 0 || height % 2 != 0 {
        Err(CodecError::OddDimensions)
    } else if len < stride * height {
        Err(CodecError::BufferTooSmall { len: len as usize, needed: (stride * height) as usize })
    } else {
        match conversion_outcome(len, width, height, stride) {
            Ok(()) => Ok(()),
            Err(e) => Err(CodecError::Conversion(e)),
        }
    }
}

/// `s` cut or zero-filled to `len` bytes.
pub open spec fn resized(s: Seq<u8>, len: nat) -> Seq<u8> {
    Seq::new(
        len,
        |i: int|
            if i < s.len() {
                s[i]
            } else {
                0u8
            },
    )
}

/// Converts a BGRA frame, top-down with `stride` bytes per row, to packed I420:
/// the luma plane, the blue-difference plane and the red-difference plane, one
/// after the other in `out`.
///
/// `out` is reused across frames. It is resized only when its length does not
/// fit, and is left alone when the dimensions are odd or the buffer is too small.
pub fn bgra_to_i420_into(
    bgra: &[u8],
    width: u32,
    height: u32,
    stride: u32,
    out: &mut Vec<u8>,
) -> (r: Result<(), CodecError>)
    requires
        addressable(bgra@.len(), width, height, stride),
    ensures
        r == codec_outcome(bgra@.len(), width, height, stride),
        r matches Err(e) ==> final(out)@ == if e is Conversion {
            resized(old(out)@, i420_len(width as nat, height as nat))
        } else {
            old(out)@
        },
        r is Ok ==> is_i420(final(out)@, bgra@, width as nat, height as nat, stride as nat),
        r is Ok ==> exists|routine: Routine| #[trigger]
            converted_by(routine, final(out)@, bgra@, width, height, stride),
{
    if width % 2 != 0 || height % 2 != 0 {
        return Err(CodecError::OddDimensions);
    }
    proof {
        lemma_plane_sizes(width as nat, height as nat);
    }
    let needed: usize = (stride as u128 * height as u128) as usize;
    if bgra.len() < needed {
        return Err(CodecError::BufferTooSmall { len: bgra.len(), needed });
    }
    let y_size: usize = width as usize * height as usize;
    let uv_size: usize = (width as usize / 2) * (height as usize / 2);
    let total: usize = y_size + 2 * uv_size;
    if out.len() != total {
        out.resize(total, 0);
    }
    assert(out@ =~= resized(old(out)@, total as nat));
    let (y, rest) = out.as_mut_slice().split_at_mut(y_size);
    let (u, v) = rest.split_at_mut(uv_size);
    let outcome = yuv420_from_bgra(y, u, v, bgra, width, height, width / 2, stride);
    let ghost planes = (y@, u@, v@);
    proof {
        assert(out@ == planes.0 + (planes.1 + planes.2));
        assert(out@.subrange(0, y_size as int) =~= planes.0);
        assert(out@.subrange(y_size as int, y_size + uv_size) =~= planes.1);
        assert(out@.skip(y_size + uv_size) =~= planes.2);
        if outcome is Ok {
            let routine = choose|routine: Routine|
                planes.0 + (planes.1 + planes.2) == #[trigger] routine_output(
                    routine,
                    unpadded(bgra@, width as int, height as int, stride as int),
                    width,
                    height,
                );
            assert(converted_by(routine, out@, bgra@, width, height, stride));
        }
    }
    match outcome {
        Ok(()) => Ok(()),
        Err(e) => Err(CodecError::Conversion(e)),
    }
}

/// Every frame with even dimensions, whole rows and a buffer that holds them is
/// converted, whatever its row padding.
pub proof fn law_whole_frames_are_converted(len: nat, width: u32, height: u32, stride: u32)
    requires
        width > 0,
        height > 0,
        width % 2 == 0,
        height % 2 == 0,
        stride >= 4 * width,
        len >= stride * height,
        width * height * 4 <= usize::MAX,
    ensures
        codec_outcome(len, width, height, stride) == Ok::<(), CodecError>(()),
{
    assert(stride * (height - 1) + stride == stride * height) by (nonlinear_arith);
}

/// Nothing else is converted.
pub proof fn law_converted_frames_are_whole(len: nat, width: u32, height: u32, stride: u32)
    requires
        codec_outcome(len, width, height, stride) is Ok,
    ensures
        width > 0,
        height > 0,
        width % 2 == 0,
        height % 2 == 0,
        stride >= 4 * width,
        len >= stride * height,
{
}

/// Images with the same pixels are the same once the row padding is left out.
proof fn lemma_same_pixels(
    bgra1: Seq<u8>,
    stride1: nat,
    bgra2: Seq<u8>,
    stride2: nat,
    width: nat,
    height: nat,
)
    requires
        forall|x: int, y: int, c: int|
            0 <= x < width && 0 <= y < height && 0 <= c < 4 ==> #[trigger] channel_at(
                bgra1,
                stride1,
                x,
                y,
                c,
            ) == channel_at(bgra2, stride2, x, y, c),
    ensures
        unpadded(bgra1, width as int, height as int, stride1 as int) == unpadded(
            bgra2,
            width as int,
            height as int,
            stride2 as int,
        ),
{
    let first = unpadded(bgra1, width as int, height as int, stride1 as int);
    let second = unpadded(bgra2, width as int, height as int, stride2 as int);
    let row: int = 4 * width as int;
    assert forall|i: int| 0 <= i < first.len() implies first[i] == second[i] by {
        let y = i / row;
        let x = i % row / 4;
        let c = i % row % 4;
        assert(0 <= y < height && 0 <= i % row < row) by (nonlinear_arith)
            requires
                0 <= i < row * height,
                row == 4 * width,
                y == i / row,
                0 <= width,
                0 <= height,
        ;
        assert(0 <= x < width);
        assert(channel_at(bgra1, stride1, x, y, c) == channel_at(bgra2, stride2, x, y, c));
    }
    assert(first =~= second);
}

/// Row padding makes no difference: two conversions of the same pixels on one
/// machine, each with padding of its own and into a buffer with a past of its own,
/// give the same bytes.
pub proof fn law_padding_makes_no_difference(
    routine: Routine,
    first: Seq<u8>,
    bgra1: Seq<u8>,
    stride1: u32,
    second: Seq<u8>,
    bgra2: Seq<u8>,
    stride2: u32,
    width: u32,
    height: u32,
)
    requires
        converted_by(routine, first, bgra1, width, height, stride1),
        converted_by(routine, second, bgra2, width, height, stride2),
        forall|x: int, y: int, c: int|
            0 <= x < width && 0 <= y < height && 0 <= c < 4 ==> #[trigger] channel_at(
                bgra1,
                stride1 as nat,
                x,
                y,
                c,
            ) == channel_at(bgra2, stride2 as nat, x, y, c),
    ensures
        first == second,
{
    lemma_same_pixels(
        bgra1,
        stride1 as nat,
        bgra2,
        stride2 as nat,
        width as nat,
        height as nat,
    );
}

/// An image of the same pixels with other padding has the same planes.
proof fn lemma_same_planes(
    out: Seq<u8>,
    bgra1: Seq<u8>,
    stride1: nat,
    bgra2: Seq<u8>,
    stride2: nat,
    width: nat,
    height: nat,
)
    requires
        is_i420(out, bgra1, width, height, stride1),
        forall|x: int, y: int, c: int|
            0 <= x < width && 0 <= y < height && 0 <= c < 4 ==> #[trigger] channel_at(
                bgra1,
                stride1,
                x,
                y,
                c,
            ) == channel_at(bgra2, stride2, x, y, c),
    ensures
        is_i420(out, bgra2, width, height, stride2),
{
    let y_size = (width * height) as int;
    let uv_size = ((width / 2) * (height / 2)) as int;
    assert forall|x: int, y: int, c: int|
        0 <= x < width / 2 && 0 <= y < height / 2 && 0 <= c < 3 implies #[trigger] block_sum(
        bgra2,
        stride2,
        x,
        y,
        c,
    ) == block_sum(bgra1, stride1, x, y, c) by {
        assert(block_sum(bgra1, stride1, x, y, c) >= 0);
    }
    assert forall|x: int, y: int, c: int|
        0 <= x < width && 0 <= y < height && 0 <= c < 3 implies #[trigger] channel_at(
        bgra2,
        stride2,
        x,
        y,
        c,
    ) == channel_at(bgra1, stride1, x, y, c) by {
        assert(channel_at(bgra1, stride1, x, y, c) >= 0);
    }
    assert(is_luma_plane(out.subrange(0, y_size), bgra2, width, height, stride2));
    assert(is_blue_plane(out.subrange(y_size, y_size + uv_size), bgra2, width, height, stride2));
    assert(is_red_plane(out.skip(y_size + uv_size), bgra2, width, height, stride2));
}

/// Row padding cannot be told from the output, whatever the machine: of two whole
/// frames with the same pixels both are converted, and the bytes that one may be
/// converted to are those that the other may be converted to.
pub proof fn law_padding_cannot_be_told(
    out: Seq<u8>,
    bgra1: Seq<u8>,
    stride1: u32,
    bgra2: Seq<u8>,
    stride2: u32,
    width: u32,
    height: u32,
)
    requires
        width > 0,
        height > 0,
        width % 2 == 0,
        height % 2 == 0,
        width * height * 4 <= usize::MAX,
        stride1 >= 4 * width,
        stride2 >= 4 * width,
        bgra1.len() >= stride1 * height,
        bgra2.len() >= stride2 * height,
        forall|x: int, y: int, c: int|
            0 <= x < width && 0 <= y < height && 0 <= c < 4 ==> #[trigger] channel_at(
                bgra1,
                stride1 as nat,
                x,
                y,
                c,
            ) == channel_at(bgra2, stride2 as nat, x, y, c),
    ensures
        codec_outcome(bgra1.len(), width, height, stride1) == Ok::<(), CodecError>(()),
        codec_outcome(bgra2.len(), width, height, stride2) == Ok::<(), CodecError>(()),
        is_i420(out, bgra1, width as nat, height as nat, stride1 as nat) <==> is_i420(
            out,
            bgra2,
            width as nat,
            height as nat,
            stride2 as nat,
        ),
        forall|routine: Routine| #[trigger]
            converted_by(routine, out, bgra1, width, height, stride1) <==> converted_by(
                routine,
                out,
                bgra2,
                width,
                height,
                stride2,
            ),
{
    let (w, h) = (width as nat, height as nat);
    let (s1, s2) = (stride1 as nat, stride2 as nat);
    law_whole_frames_are_converted(bgra1.len(), width, height, stride1);
    law_whole_frames_are_converted(bgra2.len(), width, height, stride2);
    lemma_same_pixels(bgra1, s1, bgra2, s2, w, h);
    if is_i420(out, bgra1, w, h, s1) {
        lemma_same_planes(out, bgra1, s1, bgra2, s2, w, h);
    }
    assert forall|x: int, y: int, c: int|
        0 <= x < w && 0 <= y < h && 0 <= c < 4 implies #[trigger] channel_at(bgra2, s2, x, y, c)
        == channel_at(bgra1, s1, x, y, c) by {
        assert(channel_at(bgra1, s1, x, y, c) == channel_at(bgra2, s2, x, y, c));
    }
    if is_i420(out, bgra2, w, h, s2) {
        lemma_same_planes(out, bgra2, s2, bgra1, s1, w, h);
    }
}

/// Two samples of the same value are close.
proof fn lemma_close(a: int, b: int, exact: int, unit: int)
    requires
        unit > 0,
        is_close(a, exact, unit),
        is_close(b, exact, unit),
    ensures
        -2 <= a - b <= 2,
{
    assert(unit * a - unit * b == unit * (a - b)) by (nonlinear_arith);
    assert(-2 <= a - b <= 2) by (nonlinear_arith)
        requires
            unit > 0,
            -12 * unit <= 5 * (unit * (a - b)) <= 12 * unit,
    ;
}

/// Machines agree closely: two conversions of the same pixels, each on a machine
/// and with padding of its own, give luma samples no more than 2 apart.
pub proof fn law_machines_agree_on_luma(
    first: Seq<u8>,
    bgra1: Seq<u8>,
    stride1: nat,
    second: Seq<u8>,
    bgra2: Seq<u8>,
    stride2: nat,
    width: nat,
    height: nat,
    x: int,
    y: int,
)
    requires
        is_luma_plane(first, bgra1, width, height, stride1),
        is_luma_plane(second, bgra2, width, height, stride2),
        0 <= x < width,
        0 <= y < height,
        forall|c: int|
            0 <= c < 3 ==> #[trigger] channel_at(bgra1, stride1, x, y, c) == channel_at(
                bgra2,
                stride2,
                x,
                y,
                c,
            ),
    ensures
        -2 <= first[width * y + x] - second[width * y + x] <= 2,
{
    let r = channel_at(bgra1, stride1, x, y, 2);
    let g = channel_at(bgra1, stride1, x, y, 1);
    let b = channel_at(bgra1, stride1, x, y, 0);
    lemma_close(
        first[width * y + x] - 16,
        second[width * y + x] - 16,
        219 * (299 * r + 587 * g + 114 * b),
        255_000,
    );
}

/// Machines agree closely: two conversions of the same pixels, each on a machine
/// and with padding of its own, give chroma samples no more than 2 apart.
pub proof fn law_machines_agree_on_chroma(
    first: (Seq<u8>, Seq<u8>),
    bgra1: Seq<u8>,
    stride1: nat,
    second: (Seq<u8>, Seq<u8>),
    bgra2: Seq<u8>,
    stride2: nat,
    width: nat,
    height: nat,
    x: int,
    y: int,
)
    requires
        is_blue_plane(first.0, bgra1, width, height, stride1),
        is_red_plane(first.1, bgra1, width, height, stride1),
        is_blue_plane(second.0, bgra2, width, height, stride2),
        is_red_plane(second.1, bgra2, width, height, stride2),
        0 <= x < width / 2,
        0 <= y < height / 2,
        forall|c: int|
            0 <= c < 3 ==> #[trigger] block_sum(bgra1, stride1, x, y, c) == block_sum(
                bgra2,
                stride2,
                x,
                y,
                c,
            ),
    ensures
        -2 <= first.0[width / 2 * y + x] - second.0[width / 2 * y + x] <= 2,
        -2 <= first.1[width / 2 * y + x] - second.1[width / 2 * y + x] <= 2,
{
    let i = width / 2 * y + x;
    let r = block_sum(bgra1, stride1, x, y, 2);
    let g = block_sum(bgra1, stride1, x, y, 1);
    let b = block_sum(bgra1, stride1, x, y, 0);
    lemma_close(
        first.0[i] - 128,
        second.0[i] - 128,
        224 * (886 * b - 587 * g - 299 * r),
        1_807_440,
    );
    lemma_close(
        first.1[i] - 128,
        second.1[i] - 128,
        224 * (701 * r - 587 * g - 114 * b),
        1_430_040,
    );
}

/// Where each sample of a converted frame stands and which pixels it comes from:
/// luma first, one byte per pixel, then blue difference and red difference, one byte
/// for every two by two pixels. Each is within 1.2 of the BT.601 formula.
pub proof fn law_samples_stand_in_their_places(
    out: Seq<u8>,
    bgra: Seq<u8>,
    width: nat,
    height: nat,
    stride: nat,
    x: int,
    y: int,
)
    requires
        is_i420(out, bgra, width, height, stride),
        width % 2 == 0,
        height % 2 == 0,
        0 <= x < width,
        0 <= y < height,
    ensures
        out.len() == width * height + width * height / 2,
        ({
            let at = stride * y + 4 * x;
            let exact = 219 * (114 * bgra[at] + 587 * bgra[at + 1] + 299 * bgra[at + 2]);
            -306_000 <= 255_000 * (out[width * y + x] - 16) - exact <= 306_000
        }),
        ({
            let at = stride * (y - y % 2) + 4 * (x - x % 2);
            let below = stride * (y - y % 2 + 1) + 4 * (x - x % 2);
            let b = bgra[at] + bgra[at + 4] + bgra[below] + bgra[below + 4];
            let g = bgra[at + 1] + bgra[at + 5] + bgra[below + 1] + bgra[below + 5];
            let r = bgra[at + 2] + bgra[at + 6] + bgra[below + 2] + bgra[below + 6];
            let blue = out[width * height + width / 2 * (y / 2) + x / 2] - 128;
            let red = out[width * height + width * height / 4 + width / 2 * (y / 2) + x / 2] - 128;
            &&& -6 * 1_807_440 <= 5 * (1_807_440 * blue - 224 * (886 * b - 587 * g - 299 * r)) <= 6
                * 1_807_440
            &&& -6 * 1_430_040 <= 5 * (1_430_040 * red - 224 * (701 * r - 587 * g - 114 * b)) <= 6
                * 1_430_040
        }),
{
    let y_size = (width * height) as int;
    let uv_size = ((width / 2) * (height / 2)) as int;
    let cw = width / 2;
    let ch = height / 2;
    let cx = x / 2;
    let cy = y / 2;
    assert(width * height == 4 * (cw * ch)) by (nonlinear_arith)
        requires
            width == 2 * cw,
            height == 2 * ch,
    ;
    assert(0 <= width * y + x < width * height) by (nonlinear_arith)
        requires
            0 <= x < width,
            0 <= y < height,
    ;
    assert(0 <= cw * cy + cx < cw * ch) by (nonlinear_arith)
        requires
            0 <= cx < cw,
            0 <= cy < ch,
    ;
    let luma = out.subrange(0, y_size);
    let blue = out.subrange(y_size, y_size + uv_size);
    let red = out.skip(y_size + uv_size);
    assert(luma[width * y + x] == out[width * y + x]);
    assert(blue[cw * cy + cx] == out[y_size + (cw * cy + cx)]);
    assert(red[cw * cy + cx] == out[y_size + uv_size + (cw * cy + cx)]);
    assert(is_luma(
        luma[width * y + x],
        channel_at(bgra, stride, x, y, 0),
        channel_at(bgra, stride, x, y, 1),
        channel_at(bgra, stride, x, y, 2),
    ));
    assert(2 * cx == x - x % 2 && 2 * cy == y - y % 2);
}

/// A frame that is refused is refused for the first of these that holds: odd
/// dimensions, a buffer shorter than its rows, an empty picture, one that cannot be
/// addressed, pixels that end too soon, or a stride shorter than a row.
pub proof fn law_refusals_come_in_order(len: usize, width: u32, height: u32, stride: u32)
    requires
        stride * height <= usize::MAX,
    ensures
        ({
            let outcome = codec_outcome(len as nat, width, height, stride);
            let odd = width % 2 == 1 || height % 2 == 1;
            let short = len < stride * height;
            let empty = width == 0 || height == 0;
            let huge = width * height * 4 > usize::MAX;
            let narrow = stride < 4 * width;
            let cut = len < stride * (height - 1) + 4 * width;
            &&& odd ==> outcome == Err::<(), CodecError>(CodecError::OddDimensions)
            &&& !odd && short ==> (outcome matches Err(CodecError::BufferTooSmall {
                len: l,
                needed,
            }) && l == len && needed == stride * height)
            &&& !odd && !short && empty ==> outcome == Err::<(), CodecError>(
                CodecError::Conversion(ConversionError::ZeroBaseSize),
            )
            &&& !odd && !short && !empty && huge ==> outcome == Err::<(), CodecError>(
                CodecError::Conversion(ConversionError::PointerOverflow),
            )
            &&& !odd && !short && !empty && !huge && cut ==> (outcome matches Err(
                CodecError::Conversion(ConversionError::DestinationSizeMismatch(want, got)),
            ) && want == stride * height && got == len)
            &&& !odd && !short && !empty && !huge && !cut && narrow ==> (outcome matches Err(
                CodecError::Conversion(ConversionError::MinimumStrideSizeMismatch(want, got)),
            ) && want == 4 * width && got == stride)
            &&& !odd && !short && !empty && !huge && !narrow ==> outcome is Ok
        }),
{
    if height > 0 {
        assert(stride * (height - 1) + stride == stride * height) by (nonlinear_arith);
    }
    if width > 0 && height > 0 && width * height * 4 <= usize::MAX {
        assert(4 * width <= usize::MAX) by (nonlinear_arith)
            requires
                width * height * 4 <= usize::MAX,
                height >= 1,
                width >= 0,
        ;
    }
}

/// A buffer that is made to fit keeps what it held as far as that goes, and is zero
/// after it.
pub proof fn law_resized_keeps_the_start(s: Seq<u8>, len: nat, i: int)
    requires
        0 <= i < len,
    ensures
        resized(s, len).len() == len,
        i < s.len() ==> resized(s, len)[i] == s[i],
        i >= s.len() ==> resized(s, len)[i] == 0,
{
}

} // verus!
