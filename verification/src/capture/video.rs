//! Preparation of captured video frames.

use crate::capture::Resolution;
use crate::text::{decimal, decimal_text};
use vstd::arithmetic::div_mod::{lemma_fundamental_div_mod, lemma_fundamental_div_mod_converse};
use vstd::prelude::*;

verus! {

/// One captured video frame in BGRA8 layout.
#[derive(Clone)]
pub struct VideoFrame {
    pub width: u32,
    pub height: u32,
    /// Bytes per row.
    pub stride: u32,
    pub data: Vec<u8>,
    pub timestamp_us: u64,
}

impl VideoFrame {
    /// Whether the frame is `width` by `height` pixels without row padding.
    pub open spec fn is_tight(self, width: u32, height: u32) -> bool {
        self.width == width && self.height == height && self.stride == width * 4
    }
}

/// Source coordinate that the downscaler samples for coordinate `d` of the
/// output: the one under the centre of the output pixel.
pub open spec fn sample_coord(d: int, src: int, dst: int) -> int {
    ((2 * d + 1) * src) / (2 * dst)
}

/// Place of output byte `i` in the source buffer.
pub open spec fn sampled_byte(i: int, src_w: int, src_h: int, dst_w: int, dst_h: int) -> int {
    let row = 4 * dst_w;
    4 * src_w * sample_coord(i / row, src_h, dst_h) + 4 * sample_coord(
        (i % row) / 4,
        src_w,
        dst_w,
    ) + i % 4
}

/// Nearest-neighbour reduction of a tight BGRA image.
pub open spec fn downscaled(src: Seq<u8>, src_w: int, src_h: int, dst_w: int, dst_h: int) -> Seq<
    u8,
> {
    Seq::new(
        (4 * dst_w * dst_h) as nat,
        |i: int| src[sampled_byte(i, src_w, src_h, dst_w, dst_h)],
    )
}

/// End of the last source pixel that is sampled.
pub open spec fn sampled_end(src_w: int, src_h: int, dst_w: int, dst_h: int) -> int {
    if dst_w == 0 || dst_h == 0 {
        0
    } else {
        4 * src_w * sample_coord(dst_h - 1, src_h, dst_h) + 4 * sample_coord(
            dst_w - 1,
            src_w,
            dst_w,
        ) + 4
    }
}

/// Shapes that the downscaler can handle: rows and images within their integer
/// types, and a source that holds every sampled pixel.
pub open spec fn can_downscale(len: nat, src_w: u32, src_h: u32, dst_w: u32, dst_h: u32) -> bool {
    &&& 4 * src_w <= u32::MAX
    &&& 4 * dst_w <= u32::MAX
    &&& 4 * dst_w * dst_h <= usize::MAX
    &&& (2 * dst_h - 1) * src_h <= u64::MAX
    &&& sampled_end(src_w as int, src_h as int, dst_w as int, dst_h as int) <= len
}

proof fn lemma_sample_order(a: int, b: int, src: int, dst: int)
    requires
        0 <= a <= b,
        0 <= src,
        0 < dst,
    ensures
        0 <= sample_coord(a, src, dst) <= sample_coord(b, src, dst),
{
    let p = (2 * a + 1) * src;
    let q = (2 * b + 1) * src;
    assert(0 <= p <= q) by (nonlinear_arith)
        requires
            p == (2 * a + 1) * src,
            q == (2 * b + 1) * src,
            0 <= a <= b,
            0 <= src,
    ;
    vstd::arithmetic::div_mod::lemma_div_is_ordered(p, q, 2 * dst);
    vstd::arithmetic::div_mod::lemma_div_pos_is_pos(p, 2 * dst);
}

proof fn lemma_row_position(row_len: int, row: int, col: int)
    requires
        0 <= col < row_len,
        0 <= row,
    ensures
        (row_len * row + col) / row_len == row,
        (row_len * row + col) % row_len == col,
{
    vstd::arithmetic::mul::lemma_mul_is_commutative(row_len, row);
    lemma_fundamental_div_mod_converse(row_len * row + col, row_len, row, col);
}

/// A sampled coordinate lies inside the source.
pub proof fn law_sample_is_inside(d: int, src: int, dst: int)
    requires
        0 <= d < dst,
        0 < src,
    ensures
        0 <= sample_coord(d, src, dst) < src,
{
    lemma_sample_order(d, dst - 1, src, dst);
    let p = (2 * dst - 1) * src;
    assert((2 * (dst - 1) + 1) * src == p);
    assert(p < src * (2 * dst)) by (nonlinear_arith)
        requires
            p == (2 * dst - 1) * src,
            0 < src,
    ;
    vstd::arithmetic::div_mod::lemma_multiply_divide_lt(p, 2 * dst, src);
}

/// A row of `dst_w` pixels sampled from the source row that starts at `start`.
pub open spec fn sampled_row(src: Seq<u8>, src_w: int, start: int, dst_w: int) -> Seq<u8> {
    Seq::new(
        (4 * dst_w) as nat,
        |i: int| src[start + 4 * sample_coord(i / 4, src_w, dst_w) + i % 4],
    )
}

fn push_sampled_row(src: &[u8], src_w: u32, start: usize, dst_w: u32, dst: &mut Vec<u8>)
    requires
        4 * src_w <= u32::MAX,
        0 < dst_w,
        4 * dst_w <= u32::MAX,
        start + 4 * sample_coord(dst_w - 1, src_w as int, dst_w as int) + 4 <= src@.len(),
    ensures
        final(dst)@ == old(dst)@ + sampled_row(src@, src_w as int, start as int, dst_w as int),
{
    let ghost before = dst@;
    let ghost row = sampled_row(src@, src_w as int, start as int, dst_w as int);
    let total = src.len();
    let mut dx: u32 = 0;
    assert(before + row.take(0) =~= before);
    while dx < dst_w
        invariant
            dx <= dst_w,
            total == src@.len(),
            4 * src_w <= u32::MAX,
            0 < dst_w,
            4 * dst_w <= u32::MAX,
            start + 4 * sample_coord(dst_w - 1, src_w as int, dst_w as int) + 4 <= total,
            row == sampled_row(src@, src_w as int, start as int, dst_w as int),
            dst@ == before + row.take(4 * dx as int),
        decreases dst_w - dx,
    {
        let ghost sampled = sample_coord(dx as int, src_w as int, dst_w as int);
        proof {
            lemma_sample_order(dx as int, dst_w - 1, src_w as int, dst_w as int);
            assert((2 * dx + 1) * src_w <= 0x8000_0000 * 0x4000_0000) by (nonlinear_arith)
                requires
                    0 <= dx <= 0x3fff_ffff,
                    0 <= src_w <= 0x3fff_ffff,
            ;
        }
        let sx: u64 = ((dx as u64 * 2 + 1) * src_w as u64) / (dst_w as u64 * 2);
        assert(sx == sampled);
        let s: usize = start + sx as usize * 4;
        dst.push(src[s]);
        dst.push(src[s + 1]);
        dst.push(src[s + 2]);
        dst.push(src[s + 3]);
        assert(dst@ =~= before + row.take(4 * (dx + 1)));
        dx = dx + 1;
    }
    assert(row.take(4 * dst_w as int) =~= row);
}

/// Row `dy` of the reduced image is a sampled row.
proof fn lemma_downscaled_row(
    src: Seq<u8>,
    src_w: int,
    src_h: int,
    dst_w: int,
    dst_h: int,
    dy: int,
)
    requires
        0 <= src_w,
        0 <= src_h,
        0 < dst_w,
        0 <= dy < dst_h,
    ensures
        0 <= 4 * dst_w * dy,
        4 * dst_w * (dy + 1) == 4 * dst_w * dy + 4 * dst_w,
        4 * dst_w * (dy + 1) <= 4 * dst_w * dst_h,
        downscaled(src, src_w, src_h, dst_w, dst_h).subrange(
            4 * dst_w * dy,
            4 * dst_w * (dy + 1),
        ) == sampled_row(src, src_w, 4 * src_w * sample_coord(dy, src_h, dst_h), dst_w),
{
    let row_len = 4 * dst_w;
    assert(0 <= row_len * dy) by (nonlinear_arith)
        requires
            0 <= row_len,
            0 <= dy,
    ;
    assert(row_len * (dy + 1) == row_len * dy + row_len) by (nonlinear_arith);
    assert(row_len * (dy + 1) <= row_len * dst_h) by (nonlinear_arith)
        requires
            0 <= row_len,
            dy + 1 <= dst_h,
    ;
    let whole = downscaled(src, src_w, src_h, dst_w, dst_h);
    let row = sampled_row(src, src_w, 4 * src_w * sample_coord(dy, src_h, dst_h), dst_w);
    assert forall|j: int| 0 <= j < row_len implies whole[row_len * dy + j] == #[trigger] row[j] by {
        let i = row_len * dy + j;
        lemma_row_position(row_len, dy, j);
        assert(i % 4 == j % 4) by {
            assert(row_len * dy == 4 * (dst_w * dy)) by (nonlinear_arith)
                requires
                    row_len == 4 * dst_w,
            ;
        }
    }
    assert(whole.subrange(row_len * dy, row_len * (dy + 1)) =~= row);
}

/// Nearest-neighbour BGRA downscale, chosen for speed: screen content is mostly
/// flat, and the encoder smooths what is left.
pub fn downscale_bgra(src: &[u8], src_w: u32, src_h: u32, dst_w: u32, dst_h: u32) -> (dst: Vec<u8>)
    requires
        can_downscale(src@.len(), src_w, src_h, dst_w, dst_h),
    ensures
        dst@ == downscaled(src@, src_w as int, src_h as int, dst_w as int, dst_h as int),
{
    let mut dst: Vec<u8> = Vec::new();
    let ghost whole = downscaled(src@, src_w as int, src_h as int, dst_w as int, dst_h as int);
    if dst_w == 0 {
        assert(4 * dst_w * dst_h == 0) by (nonlinear_arith)
            requires
                dst_w == 0,
        ;
        assert(dst@ =~= whole);
        return dst;
    }
    let total = src.len();
    let mut dy: u32 = 0;
    assert(whole.take(0) =~= dst@);
    assert(4 * dst_w * 0 == 0);
    while dy < dst_h
        invariant
            dy <= dst_h,
            0 < dst_w,
            total == src@.len(),
            can_downscale(total as nat, src_w, src_h, dst_w, dst_h),
            whole == downscaled(src@, src_w as int, src_h as int, dst_w as int, dst_h as int),
            0 <= 4 * dst_w * dy <= whole.len(),
            dst@ == whole.take(4 * dst_w * dy),
        decreases dst_h - dy,
    {
        let ghost sampled = sample_coord(dy as int, src_h as int, dst_h as int);
        let ghost last = sample_coord(dst_h - 1, src_h as int, dst_h as int);
        let ghost col = sample_coord(dst_w - 1, src_w as int, dst_w as int);
        proof {
            lemma_sample_order(dy as int, dst_h - 1, src_h as int, dst_h as int);
            lemma_sample_order(dst_w - 1, dst_w - 1, src_w as int, dst_w as int);
            lemma_downscaled_row(
                src@,
                src_w as int,
                src_h as int,
                dst_w as int,
                dst_h as int,
                dy as int,
            );
            assert((2 * dy + 1) * src_h <= (2 * dst_h - 1) * src_h) by (nonlinear_arith)
                requires
                    0 <= src_h,
                    dy < dst_h,
            ;
            assert((dy * 2 + 1) * src_h == (2 * dy + 1) * src_h);
            assert(4 * src_w * sampled <= 4 * src_w * last) by (nonlinear_arith)
                requires
                    0 <= src_w,
                    sampled <= last,
            ;
            assert(0 <= 4 * src_w * sampled) by (nonlinear_arith)
                requires
                    0 <= src_w,
                    0 <= sampled,
            ;
            if src_h > 0 {
                law_sample_is_inside(dy as int, src_h as int, dst_h as int);
            } else {
                assert((2 * dy + 1) * src_h == 0) by (nonlinear_arith)
                    requires
                        src_h == 0,
                ;
            }
        }
        let sy: u64 = ((dy as u64 * 2 + 1) * src_h as u64) / (dst_h as u64 * 2);
        assert(sy == sampled);
        assert(sy as usize * (src_w * 4) as usize == 4 * src_w * sampled) by (nonlinear_arith)
            requires
                sy == sampled,
                sy <= usize::MAX,
                4 * src_w <= u32::MAX,
        ;
        let start: usize = sy as usize * (src_w * 4) as usize;
        push_sampled_row(src, src_w, start, dst_w, &mut dst);
        assert(dst@ =~= whole.take(4 * dst_w * (dy + 1)));
        dy = dy + 1;
    }
    assert(whole.take(4 * dst_w * dst_h) =~= whole);
    dst
}

/// A source with all its rows holds every pixel that is sampled.
pub proof fn law_full_source_suffices(src_w: int, src_h: int, dst_w: int, dst_h: int)
    requires
        0 < src_w,
        0 < src_h,
        0 <= dst_w,
        0 <= dst_h,
    ensures
        sampled_end(src_w, src_h, dst_w, dst_h) <= 4 * src_w * src_h,
{
    if dst_w > 0 && dst_h > 0 {
        law_sample_is_inside(dst_w - 1, src_w, dst_w);
        law_sample_is_inside(dst_h - 1, src_h, dst_h);
        let y = sample_coord(dst_h - 1, src_h, dst_h);
        let x = sample_coord(dst_w - 1, src_w, dst_w);
        assert(4 * src_w * y + 4 * x + 4 <= 4 * src_w * src_h) by (nonlinear_arith)
            requires
                0 <= y <= src_h - 1,
                0 <= x <= src_w - 1,
                0 < src_w,
        ;
    } else {
        assert(0 <= 4 * src_w * src_h) by (nonlinear_arith)
            requires
                0 < src_w,
                0 < src_h,
        ;
    }
}

/// Every output pixel is the source pixel under its centre, all four bytes of it.
pub proof fn law_output_pixel_is_sampled_pixel(
    src: Seq<u8>,
    src_w: int,
    src_h: int,
    dst_w: int,
    dst_h: int,
    dx: int,
    dy: int,
    c: int,
)
    requires
        0 <= src_w,
        0 <= src_h,
        0 <= dx < dst_w,
        0 <= dy < dst_h,
        0 <= c < 4,
    ensures
        downscaled(src, src_w, src_h, dst_w, dst_h).len() == 4 * dst_w * dst_h,
        0 <= 4 * dst_w * dy + 4 * dx + c < 4 * dst_w * dst_h,
        downscaled(src, src_w, src_h, dst_w, dst_h)[4 * dst_w * dy + 4 * dx + c] == src[4 * src_w
            * sample_coord(dy, src_h, dst_h) + 4 * sample_coord(dx, src_w, dst_w) + c],
{
    lemma_downscaled_row(src, src_w, src_h, dst_w, dst_h, dy);
    let whole = downscaled(src, src_w, src_h, dst_w, dst_h);
    let start = 4 * dst_w * dy;
    let row = whole.subrange(start, 4 * dst_w * (dy + 1));
    assert(row[4 * dx + c] == whole[start + (4 * dx + c)]);
    assert((4 * dx + c) / 4 == dx && (4 * dx + c) % 4 == c);
}

/// Scaling to the same shape changes nothing.
pub proof fn law_same_shape_is_identity(src: Seq<u8>, w: int, h: int)
    requires
        0 < w,
        0 < h,
        src.len() == 4 * w * h,
    ensures
        downscaled(src, w, h, w, h) == src,
{
    let whole = downscaled(src, w, h, w, h);
    let row_len = 4 * w;
    assert forall|i: int| 0 <= i < src.len() implies whole[i] == src[i] by {
        let y = i / row_len;
        let x = (i % row_len) / 4;
        lemma_fundamental_div_mod(i, row_len);
        lemma_same_coord(y, h);
        lemma_same_coord(x, w);
        vstd::arithmetic::div_mod::lemma_multiply_divide_lt(i, row_len, h);
        assert(i % 4 == (i % row_len) % 4) by {
            assert(row_len * y == 4 * (w * y)) by (nonlinear_arith)
                requires
                    row_len == 4 * w,
            ;
        }
    }
    assert(whole =~= src);
}

proof fn lemma_same_coord(d: int, n: int)
    requires
        0 < n,
    ensures
        sample_coord(d, n, n) == d,
{
    assert((2 * d + 1) * n == d * (2 * n) + n) by (nonlinear_arith);
    lemma_fundamental_div_mod_converse((2 * d + 1) * n, 2 * n, d, n);
}

/// The largest even number up to `n`.
pub open spec fn even_floor(n: int) -> int {
    n - n % 2
}

/// Height that keeps a `w` by `h` picture in proportion at width `target`.
pub open spec fn proportional(target: int, w: int, h: int) -> int {
    target * h / w
}

/// Size that a `w` by `h` capture is reduced to for a target width: even,
/// in proportion, smaller than the capture both ways and at least 16 by 16.
/// `None` if there is no such size.
pub open spec fn reduced_size(target_width: int, w: int, h: int) -> Option<(int, int)> {
    let tw = even_floor(target_width);
    let th = even_floor(proportional(tw, w, h));
    if 16 <= tw < w && 16 <= th < h {
        Some((tw, th))
    } else {
        None
    }
}

proof fn lemma_proportional_bound(target: int, w: int, h: int)
    requires
        0 <= target <= w,
        0 < w,
        0 <= h,
    ensures
        0 <= proportional(target, w, h) <= h,
        0 <= target * h,
{
    assert(0 <= target * h <= h * w) by (nonlinear_arith)
        requires
            0 <= target <= w,
            0 <= h,
    ;
    vstd::arithmetic::div_mod::lemma_div_is_ordered(target * h, h * w, w);
    vstd::arithmetic::div_mod::lemma_div_pos_is_pos(target * h, w);
    vstd::arithmetic::div_mod::lemma_div_multiples_vanish(h, w);
    vstd::arithmetic::mul::lemma_mul_is_commutative(h, w);
}

/// Picks the size to reduce a capture to. A target width of zero means that the
/// capture is not reduced.
pub fn plan_downscale(target_width: u32, w: u32, h: u32) -> (size: Option<(u32, u32)>)
    ensures
        size is Some <==> reduced_size(target_width as int, w as int, h as int) is Some,
        size matches Some((tw, th)) ==> reduced_size(target_width as int, w as int, h as int)
            == Some((tw as int, th as int)),
{
    let tw: u32 = target_width - target_width % 2;
    if tw < 16 || tw >= w {
        return None;
    }
    proof {
        lemma_proportional_bound(tw as int, w as int, h as int);
        assert(tw * h <= u32::MAX * u32::MAX) by (nonlinear_arith)
            requires
                tw <= u32::MAX,
                h <= u32::MAX,
        ;
    }
    let scaled: u32 = (tw as u64 * h as u64 / w as u64) as u32;
    let th: u32 = scaled - scaled % 2;
    if th < 16 || th >= h {
        return None;
    }
    Some((tw, th))
}

/// A capture is reduced to an even size that is smaller both ways, no wider than
/// the target, and in proportion: the height is less than two pixels short.
pub proof fn law_reduced_size_keeps_aspect(target_width: int, w: int, h: int)
    requires
        0 <= target_width,
        0 <= w,
        0 <= h,
    ensures
        reduced_size(target_width, w, h) matches Some((tw, th)) ==> {
            &&& tw % 2 == 0 && th % 2 == 0
            &&& 16 <= tw < w && 16 <= th < h
            &&& tw <= target_width
            &&& th * w <= tw * h < (th + 2) * w
        },
{
    if let Some((tw, th)) = reduced_size(target_width, w, h) {
        let q = proportional(tw, w, h);
        lemma_fundamental_div_mod(tw * h, w);
        assert(th * w <= tw * h < (th + 2) * w) by (nonlinear_arith)
            requires
                tw * h == w * q + (tw * h) % w,
                0 <= (tw * h) % w < w,
                th <= q <= th + 1,
        ;
    }
}

/// What becomes of a capture in memory: reduced if there is a size to reduce it
/// to, kept otherwise.
pub open spec fn prepared_pixels(raw: Seq<u8>, w: u32, h: u32, target_width: u32) -> Seq<u8> {
    match reduced_size(target_width as int, w as int, h as int) {
        Some((tw, th)) => downscaled(raw, w as int, h as int, tw, th),
        None => raw,
    }
}

/// Turns a captured surface without row padding into a frame, reduced to the
/// target width where that makes it smaller.
pub fn prepare_surface(raw: &[u8], w: u32, h: u32, target_width: u32, timestamp_us: u64) -> (f:
    VideoFrame)
    requires
        4 * w <= u32::MAX,
        reduced_size(target_width as int, w as int, h as int) matches Some((tw, th))
            ==> can_downscale(raw@.len(), w, h, tw as u32, th as u32),
    ensures
        f.data@ == prepared_pixels(raw@, w, h, target_width),
        f.timestamp_us == timestamp_us,
        match reduced_size(target_width as int, w as int, h as int) {
            Some((tw, th)) => f.is_tight(tw as u32, th as u32),
            None => f.is_tight(w, h),
        },
{
    match plan_downscale(target_width, w, h) {
        Some((tw, th)) => {
            let data = downscale_bgra(raw, w, h, tw, th);
            VideoFrame { width: tw, height: th, stride: tw * 4, data, timestamp_us }
        },
        None => {
            let mut data: Vec<u8> = Vec::new();
            data.extend_from_slice(raw);
            assert(data@ =~= raw@);
            VideoFrame { width: w, height: h, stride: w * 4, data, timestamp_us }
        },
    }
}

/// Microseconds between two frames at a rate, zero counting as one.
pub open spec fn interval_us(fps: u32) -> int {
    1_000_000int / (if fps == 0 {
        1int
    } else {
        fps as int
    })
}

/// Time between two frames in microseconds. A rate of zero counts as one.
pub fn frame_interval_us(fps: u32) -> (us: u64)
    ensures
        us == interval_us(fps),
        us == 1_000_000int / (if fps == 0 {
            1int
        } else {
            fps as int
        }),
{
    let rate: u64 = if fps == 0 {
        1
    } else {
        fps as u64
    };
    1_000_000 / rate
}

/// Clock of a loop that publishes frames at a steady rate.
pub struct Pacer {
    /// Time of the next tick.
    pub next_ns: u128,
    pub interval_ns: u128,
}

impl Pacer {
    /// A pacer that starts now.
    pub open spec fn starting(now_ns: u128, fps: u32) -> Pacer {
        Pacer { next_ns: now_ns, interval_ns: (1000 * interval_us(fps)) as u128 }
    }

    /// The pacer after a tick, and how long to sleep before the tick is due.
    pub open spec fn ticked(self, now_ns: int) -> (Pacer, int) {
        (
            Pacer { next_ns: (self.next_ns + self.interval_ns) as u128, ..self },
            if now_ns < self.next_ns {
                self.next_ns - now_ns
            } else {
                0
            },
        )
    }

    /// A pacer whose first tick is now.
    pub fn new(now_ns: u128, fps: u32) -> (p: Pacer)
        ensures
            p == Pacer::starting(now_ns, fps),
            p.interval_ns == 1000 * interval_us(fps),
            p.next_ns == now_ns,
            p.interval_ns == 1000 * (1_000_000int / (if fps == 0 {
                1int
            } else {
                fps as int
            })),
    {
        Pacer { next_ns: now_ns, interval_ns: 1000 * frame_interval_us(fps) as u128 }
    }

    /// How long to sleep before the next tick. Ticks keep their distance
    /// whatever happens in between: a loop that falls behind catches up.
    pub fn tick(&mut self, now_ns: u128) -> (sleep_ns: u128)
        requires
            old(self).next_ns + old(self).interval_ns <= u128::MAX,
        ensures
            (*final(self), sleep_ns as int) == old(self).ticked(now_ns as int),
            sleep_ns == if now_ns < old(self).next_ns {
                old(self).next_ns - now_ns
            } else {
                0
            },
            final(self).next_ns == old(self).next_ns + old(self).interval_ns,
            final(self).interval_ns == old(self).interval_ns,
    {
        let sleep_ns = self.next_ns.saturating_sub(now_ns);
        self.next_ns = self.next_ns + self.interval_ns;
        sleep_ns
    }
}

/// What has to be found out before capture can start, in this order.
#[derive(Clone, Copy, Debug, PartialEq, Eq, Structural)]
pub enum Preflight {
    /// Is capture supported at all?
    Supported,
    /// Was permission granted?
    Permitted,
    /// Permission was not granted yet: is it granted when asked for?
    PermissionGranted,
    /// Is there a display to capture?
    HasDisplay,
    /// Capture can start.
    Ready,
}

/// Why capture cannot start.
#[derive(Clone, Copy, Debug, PartialEq, Eq, Structural)]
pub enum CaptureRefusal {
    NotSupported,
    PermissionDenied,
    NoDisplay,
}

impl CaptureRefusal {
    pub open spec fn message(self) -> Seq<char> {
        match self {
            CaptureRefusal::NotSupported =>
                "screen capture is not supported on this platform/version"@,
            CaptureRefusal::PermissionDenied => "screen recording permission denied"@,
            CaptureRefusal::NoDisplay =>
                "no capturable displays found — screen capture cannot start"@,
        }
    }

    pub fn to_string(&self) -> (r: String)
        ensures
            r@ == self.message(),
    {
        match self {
            CaptureRefusal::NotSupported =>
                "screen capture is not supported on this platform/version".to_string(),
            CaptureRefusal::PermissionDenied => "screen recording permission denied".to_string(),
            CaptureRefusal::NoDisplay =>
                "no capturable displays found — screen capture cannot start".to_string(),
        }
    }
}

/// Where an answer leads.
pub open spec fn preflight_answer(question: Preflight, yes: bool) -> Result<
    Preflight,
    CaptureRefusal,
> {
    match (question, yes) {
        (Preflight::Supported, true) => Ok(Preflight::Permitted),
        (Preflight::Supported, false) => Err(CaptureRefusal::NotSupported),
        (Preflight::Permitted, true) => Ok(Preflight::HasDisplay),
        (Preflight::Permitted, false) => Ok(Preflight::PermissionGranted),
        (Preflight::PermissionGranted, true) => Ok(Preflight::HasDisplay),
        (Preflight::PermissionGranted, false) => Err(CaptureRefusal::PermissionDenied),
        (Preflight::HasDisplay, true) => Ok(Preflight::Ready),
        (Preflight::HasDisplay, false) => Err(CaptureRefusal::NoDisplay),
        (Preflight::Ready, _) => Ok(Preflight::Ready),
    }
}

/// The next question once this one has been answered, or why capture cannot
/// start. Permission is only asked for where it is missing.
pub fn preflight_step(question: Preflight, yes: bool) -> (r: Result<Preflight, CaptureRefusal>)
    ensures
        r == preflight_answer(question, yes),
        r == match (question, yes) {
            (Preflight::Supported, true) => Ok::<Preflight, CaptureRefusal>(Preflight::Permitted),
            (Preflight::Supported, false) => Err(CaptureRefusal::NotSupported),
            (Preflight::Permitted, true) => Ok(Preflight::HasDisplay),
            (Preflight::Permitted, false) => Ok(Preflight::PermissionGranted),
            (Preflight::PermissionGranted, true) => Ok(Preflight::HasDisplay),
            (Preflight::PermissionGranted, false) => Err(CaptureRefusal::PermissionDenied),
            (Preflight::HasDisplay, true) => Ok(Preflight::Ready),
            (Preflight::HasDisplay, false) => Err(CaptureRefusal::NoDisplay),
            (Preflight::Ready, _) => Ok(Preflight::Ready),
        },
{
    match question {
        Preflight::Supported => if yes {
            Ok(Preflight::Permitted)
        } else {
            Err(CaptureRefusal::NotSupported)
        },
        Preflight::Permitted => if yes {
            Ok(Preflight::HasDisplay)
        } else {
            Ok(Preflight::PermissionGranted)
        },
        Preflight::PermissionGranted => if yes {
            Ok(Preflight::HasDisplay)
        } else {
            Err(CaptureRefusal::PermissionDenied)
        },
        Preflight::HasDisplay => if yes {
            Ok(Preflight::Ready)
        } else {
            Err(CaptureRefusal::NoDisplay)
        },
        Preflight::Ready => Ok(Preflight::Ready),
    }
}

/// Number of empty frames in a row after which the user is told.
pub const EMPTY_FRAMES_BEFORE_WARNING: u32 = 5;

/// Filter in front of the latest captured frame. A capturer that has nothing
/// new delivers empty frames; these are passed over, so that the last good frame
/// stays.
pub struct FrameFilter {
    /// Empty frames since the last good one.
    pub empties_in_a_row: u32,
}

/// What the filter makes of a captured frame.
pub enum FilterOutcome {
    /// A good frame.
    Frame(VideoFrame),
    /// An empty one, and whether the user should be told.
    Empty { warn: bool },
}

/// Whether a captured frame holds a picture.
pub open spec fn is_picture(width: u32, height: u32, len: nat) -> bool {
    width != 0 && height != 0 && len != 0
}

/// A frame holds a picture if it has a width, a height and data, however little.
pub proof fn law_pictures(width: u32, height: u32, len: nat)
    ensures
        is_picture(width, height, len) <==> width >= 1 && height >= 1 && len >= 1,
{
}

impl FrameFilter {
    pub fn new() -> (f: FrameFilter)
        ensures
            f.empties_in_a_row == 0,
    {
        FrameFilter { empties_in_a_row: 0 }
    }

    /// The filter after a captured frame, and whether the user should be told.
    pub open spec fn offered(self, good: bool) -> (FrameFilter, bool) {
        let n = if good {
            0
        } else if self.empties_in_a_row < u32::MAX {
            self.empties_in_a_row + 1
        } else {
            u32::MAX as int
        };
        (FrameFilter { empties_in_a_row: n as u32 }, !good && n == EMPTY_FRAMES_BEFORE_WARNING)
    }

    /// Takes one captured frame without row padding. The warning comes once in
    /// every run of empty frames, at its fifth frame.
    pub fn offer(&mut self, width: u32, height: u32, data: Vec<u8>, timestamp_us: u64) -> (outcome:
        FilterOutcome)
        requires
            width != 0 && height != 0 && data@.len() != 0 ==> 4 * width <= u32::MAX,
        ensures
            outcome is Frame <==> is_picture(width, height, data@.len()),
            outcome is Frame <==> width != 0 && height != 0 && data@.len() != 0,
            *final(self) == old(self).offered(outcome is Frame).0,
            outcome matches FilterOutcome::Empty { warn } ==> warn == old(self).offered(false).1,
            outcome matches FilterOutcome::Frame(f) ==> {
                &&& f.is_tight(width, height)
                &&& f.data@ == data@
                &&& f.timestamp_us == timestamp_us
                &&& final(self).empties_in_a_row == 0
            },
            outcome matches FilterOutcome::Empty { warn } ==> {
                &&& final(self).empties_in_a_row == if old(self).empties_in_a_row < u32::MAX {
                    old(self).empties_in_a_row + 1
                } else {
                    u32::MAX as int
                }
                &&& warn == (final(self).empties_in_a_row == EMPTY_FRAMES_BEFORE_WARNING)
            },
    {
        if width == 0 || height == 0 || data.len() == 0 {
            self.empties_in_a_row = self.empties_in_a_row.saturating_add(1);
            FilterOutcome::Empty { warn: self.empties_in_a_row == EMPTY_FRAMES_BEFORE_WARNING }
        } else {
            self.empties_in_a_row = 0;
            FilterOutcome::Frame(
                VideoFrame { width, height, stride: width * 4, data, timestamp_us },
            )
        }
    }
}

/// Whether `f` is what is published at a tick while `latest` is the latest frame.
pub open spec fn is_republished(
    f: Option<VideoFrame>,
    latest: Option<VideoFrame>,
    timestamp_us: u64,
) -> bool {
    match (f, latest) {
        (Some(new), Some(last)) => {
            &&& new.width == last.width
            &&& new.height == last.height
            &&& new.stride == last.stride
            &&& new.data@ == last.data@
            &&& new.timestamp_us == timestamp_us
        },
        (None, None) => true,
        _ => false,
    }
}

/// What is published is the latest frame, unchanged but for its time, as often as it
/// takes; before the first frame nothing is.
pub proof fn law_latest_frame_is_repeated(
    f: Option<VideoFrame>,
    last: VideoFrame,
    timestamp_us: u64,
)
    ensures
        is_republished(f, None, timestamp_us) <==> f is None,
        is_republished(f, Some(last), timestamp_us) <==> (f matches Some(new) && new.width
            == last.width && new.height == last.height && new.stride == last.stride && new.data@
            == last.data@ && new.timestamp_us == timestamp_us),
{
}

/// The frame to publish at a tick: a copy of the latest one, stamped anew, so
/// that the encoder sees a steady stream even while nothing moves.
pub fn republish(latest: &Option<VideoFrame>, timestamp_us: u64) -> (f: Option<VideoFrame>)
    ensures
        is_republished(f, *latest, timestamp_us),
        f is Some <==> latest is Some,
        f matches Some(new) ==> (latest matches Some(last) && {
            &&& new.width == last.width
            &&& new.height == last.height
            &&& new.stride == last.stride
            &&& new.data@ == last.data@
            &&& new.timestamp_us == timestamp_us
        }),
{
    match latest {
        Some(last) => {
            let mut data: Vec<u8> = Vec::new();
            data.extend_from_slice(last.data.as_slice());
            assert(data@ =~= last.data@);
            Some(
                VideoFrame {
                    width: last.width,
                    height: last.height,
                    stride: last.stride,
                    data,
                    timestamp_us,
                },
            )
        },
        None => None,
    }
}

/// Whether `index` is the display to share.
pub open spec fn is_shared_display(ids: Seq<u32>, main: u32, index: Option<usize>) -> bool {
    match index {
        Some(i) => if ids.contains(main) {
            i < ids.len() && ids[i as int] == main && !ids.take(i as int).contains(main)
        } else {
            i == 0 && ids.len() > 0
        },
        None => ids.len() == 0,
    }
}

/// The main display is shared wherever in the list it stands; without it the first
/// one is; and without any display none is.
pub proof fn law_main_display_is_shared(
    before: Seq<u32>,
    main: u32,
    after: Seq<u32>,
    index: Option<usize>,
)
    requires
        !before.contains(main),
    ensures
        is_shared_display(before + seq![main] + after, main, index) ==> (index matches Some(i) && i
            == before.len()),
        before.len() > 0 && is_shared_display(before, main, index) ==> index == Some(0usize),
        before.len() == 0 && is_shared_display(before, main, index) ==> index is None,
{
    let ids = before + seq![main] + after;
    assert(ids[before.len() as int] == main);
    assert(ids.contains(main));
    if is_shared_display(ids, main, index) {
        let i = index->0;
        if i > before.len() {
            assert(ids.take(i as int)[before.len() as int] == main);
        } else if i < before.len() {
            assert(before[i as int] == main);
        }
    }
}

/// Index of the display to share: the main one if it is listed, the first one
/// otherwise, `None` if there is no display.
pub fn pick_display(ids: &[u32], main: u32) -> (index: Option<usize>)
    ensures
        is_shared_display(ids@, main, index),
        index is None <==> ids@.len() == 0,
        index matches Some(i) ==> {
            &&& i < ids@.len()
            &&& ids@.contains(main) ==> ids@[i as int] == main && forall|j: int|
                0 <= j < i ==> ids@[j] != main
            &&& !ids@.contains(main) ==> i == 0
        },
{
    if ids.len() == 0 {
        return None;
    }
    let mut i: usize = 0;
    while i < ids.len()
        invariant
            i <= ids@.len(),
            forall|j: int| 0 <= j < i ==> ids@[j] != main,
        decreases ids@.len() - i,
    {
        if ids[i] == main {
            return Some(i);
        }
        i += 1;
    }
    Some(0)
}

/// Size to capture a `w` by `h` display at: the preset's width or the display's
/// if that is less, with the height in proportion, both made even for the
/// encoder. A display that reports no size counts as one pixel.
pub open spec fn capture_size(w: int, h: int, resolution: Resolution) -> (int, int) {
    let src_w = if w < 1 {
        1
    } else {
        w
    };
    let src_h = if h < 1 {
        1
    } else {
        h
    };
    let target_w = match resolution.pixels() {
        Some(p) => if p < src_w {
            p as int
        } else {
            src_w
        },
        None => src_w,
    };
    let target_h = proportional(target_w, src_w, src_h);
    (
        even_floor(target_w),
        even_floor(
            if target_h < 2 {
                2
            } else {
                target_h
            },
        ),
    )
}

/// Size to capture a display at.
pub fn display_capture_size(w: u32, h: u32, resolution: Resolution) -> (size: (u32, u32))
    ensures
        (size.0 as int, size.1 as int) == capture_size(w as int, h as int, resolution),
{
    let src_w: u32 = if w < 1 {
        1
    } else {
        w
    };
    let src_h: u32 = if h < 1 {
        1
    } else {
        h
    };
    let target_w = match resolution.width() {
        Some(p) => if p < src_w {
            p
        } else {
            src_w
        },
        None => src_w,
    };
    proof {
        lemma_proportional_bound(target_w as int, src_w as int, src_h as int);
        assert(target_w * src_h <= u32::MAX * u32::MAX) by (nonlinear_arith)
            requires
                target_w <= u32::MAX,
                src_h <= u32::MAX,
        ;
    }
    let target_h: u32 = (target_w as u64 * src_h as u64 / src_w as u64) as u32;
    let tall: u32 = if target_h < 2 {
        2
    } else {
        target_h
    };
    (target_w - target_w % 2, tall - tall % 2)
}

/// A display is captured at even dimensions, never wider than it is, and never
/// wider than the preset.
pub proof fn law_capture_size_is_even_and_bounded(w: int, h: int, resolution: Resolution)
    requires
        1 <= w,
        1 <= h,
    ensures
        ({
            let (cw, ch) = capture_size(w, h, resolution);
            &&& cw % 2 == 0
            &&& ch % 2 == 0
            &&& cw <= w
            &&& 2 <= ch
            &&& ch <= h || ch == 2
            &&& resolution.pixels() matches Some(p) ==> cw <= p
        }),
{
    let target_w = match resolution.pixels() {
        Some(p) => if p < w {
            p as int
        } else {
            w
        },
        None => w,
    };
    lemma_proportional_bound(target_w, w, h);
}

/// The pixels of a surface whose rows start `stride` bytes apart.
pub open spec fn unpadded(raw: Seq<u8>, w: int, h: int, stride: int) -> Seq<u8> {
    Seq::new((4 * w * h) as nat, |i: int| raw[stride * (i / (4 * w)) + i % (4 * w)])
}

/// Whether a surface holds all its rows.
pub open spec fn holds_rows(len: nat, w: int, h: int, stride: int) -> bool {
    h > 0 ==> stride * (h - 1) + 4 * w <= len
}

/// Copies a surface without its row padding.
pub fn strip_row_padding(raw: &[u8], w: u32, h: u32, stride: usize) -> (data: Vec<u8>)
    requires
        4 * w <= u32::MAX,
        4 * w * h <= usize::MAX,
        holds_rows(raw@.len(), w as int, h as int, stride as int),
    ensures
        data@ == unpadded(raw@, w as int, h as int, stride as int),
{
    let row_len: usize = (w * 4) as usize;
    let total = raw.len();
    let ghost whole = unpadded(raw@, w as int, h as int, stride as int);
    let mut data: Vec<u8> = Vec::new();
    if w == 0 {
        assert(4 * w * h == 0) by (nonlinear_arith)
            requires
                w == 0,
        ;
        assert(data@ =~= whole);
        return data;
    }
    assert(whole.take(0) =~= data@);
    assert(row_len * 0 == 0);
    let mut y: u32 = 0;
    while y < h
        invariant
            y <= h,
            0 < w,
            row_len == 4 * w,
            total == raw@.len(),
            holds_rows(total as nat, w as int, h as int, stride as int),
            whole == unpadded(raw@, w as int, h as int, stride as int),
            0 <= row_len * y <= whole.len(),
            data@ == whole.take(row_len * y),
        decreases h - y,
    {
        proof {
            assert(stride * y <= stride * (h - 1)) by (nonlinear_arith)
                requires
                    0 <= stride,
                    y <= h - 1,
            ;
            assert(row_len * (y + 1) == row_len * y + row_len) by (nonlinear_arith);
            assert(row_len * (y + 1) <= row_len * h) by (nonlinear_arith)
                requires
                    0 <= row_len,
                    y + 1 <= h,
            ;
            assert(row_len * h == 4 * w * h) by (nonlinear_arith)
                requires
                    row_len == 4 * w,
            ;
            assert(0 <= stride * y) by (nonlinear_arith)
                requires
                    0 <= stride,
                    0 <= y,
            ;
        }
        let off: usize = stride * y as usize;
        let row = &raw[off..off + row_len];
        let ghost before = data@;
        data.extend_from_slice(row);
        proof {
            assert(data@ =~= before + row@);
            assert forall|j: int| 0 <= j < row_len implies whole[row_len * y + j]
                == #[trigger] row@[j] by {
                lemma_row_position(row_len as int, y as int, j);
            }
            assert(data@ =~= whole.take(row_len * (y + 1)));
        }
        y = y + 1;
    }
    proof {
        assert(row_len * h == 4 * w * h) by (nonlinear_arith)
            requires
                row_len == 4 * w,
        ;
        assert(whole.take(row_len * h) =~= whole);
    }
    data
}

/// Turns a captured surface into a frame without row padding. An empty surface
/// gives none.
pub fn prepare_padded_surface(
    raw: &[u8],
    w: u32,
    h: u32,
    stride: usize,
    timestamp_us: u64,
) -> (f: Option<VideoFrame>)
    requires
        w != 0 && h != 0 && raw@.len() != 0 ==> {
            &&& 4 * w <= u32::MAX
            &&& 4 * w * h <= usize::MAX
            &&& holds_rows(raw@.len(), w as int, h as int, stride as int)
        },
    ensures
        f is Some <==> is_picture(w, h, raw@.len()),
        f is Some <==> w != 0 && h != 0 && raw@.len() != 0,
        f matches Some(frame) ==> {
            &&& frame.is_tight(w, h)
            &&& frame.data@ == unpadded(raw@, w as int, h as int, stride as int)
            &&& frame.timestamp_us == timestamp_us
        },
{
    if w == 0 || h == 0 || raw.len() == 0 {
        return None;
    }
    let data = strip_row_padding(raw, w, h, stride);
    Some(VideoFrame { width: w, height: h, stride: w * 4, data, timestamp_us })
}

/// A surface without padding is copied as it is.
pub proof fn law_tight_surface_is_unchanged(raw: Seq<u8>, w: int, h: int)
    requires
        0 < w,
        0 < h,
        raw.len() >= 4 * w * h,
    ensures
        unpadded(raw, w, h, 4 * w) == raw.take(4 * w * h),
{
    assert(0 <= 4 * w * h) by (nonlinear_arith)
        requires
            0 < w,
            0 < h,
    ;
    assert forall|i: int| 0 <= i < 4 * w * h implies unpadded(raw, w, h, 4 * w)[i]
        == #[trigger] raw[i] by {
        lemma_fundamental_div_mod(i, 4 * w);
    }
    assert(unpadded(raw, w, h, 4 * w) =~= raw.take(4 * w * h));
}

/// What waiting for a first frame led to.
pub enum Probe {
    Frame(VideoFrame),
    /// Capture ended without a frame.
    Closed,
    /// No frame came in time.
    TimedOut,
}

/// Time that a probe waits for a frame.
pub const PROBE_TIMEOUT_SECS: u64 = 5;

/// Report of a probe that got a frame.
pub open spec fn probe_success(f: VideoFrame) -> Seq<char> {
    "OK: first frame "@ + decimal(f.width as nat) + "x"@ + decimal(f.height as nat) + " stride="@
        + decimal(f.stride as nat) + " ("@ + decimal(f.data@.len()) + " bytes)"@
}

/// Reports what a probe found: the shape of the frame, or why there is none.
pub fn probe_report(probe: &Probe) -> (r: Result<String, String>)
    ensures
        r is Ok <==> probe is Frame,
        match *probe {
            Probe::Frame(f) => r matches Ok(text) && text@ == probe_success(f),
            Probe::Closed => r matches Err(text) && text@
                == "capture channel closed before delivering a frame"@,
            Probe::TimedOut => r matches Err(text) && text@
                == "timed out after 5s with no frame — capture is not producing data"@,
        },
{
    match probe {
        Probe::Frame(f) => {
            let mut text = "OK: first frame ".to_string();
            text.append(decimal_text(f.width as u64).as_str());
            text.append("x");
            text.append(decimal_text(f.height as u64).as_str());
            text.append(" stride=");
            text.append(decimal_text(f.stride as u64).as_str());
            text.append(" (");
            text.append(decimal_text(f.data.len() as u64).as_str());
            text.append(" bytes)");
            Ok(text)
        },
        Probe::Closed => Err("capture channel closed before delivering a frame".to_string()),
        Probe::TimedOut => Err(
            "timed out after 5s with no frame — capture is not producing data".to_string(),
        ),
    }
}

/// The sampled coordinate is the one under the centre of the output pixel: scaled to
/// the source, the centre lies on that source pixel and on no other.
pub proof fn law_sample_is_under_the_centre(d: int, src: int, dst: int)
    requires
        0 <= d < dst,
        0 <= src,
    ensures
        ({
            let s = sample_coord(d, src, dst);
            2 * dst * s <= (2 * d + 1) * src < 2 * dst * (s + 1)
        }),
{
    let p = (2 * d + 1) * src;
    lemma_fundamental_div_mod(p, 2 * dst);
    vstd::arithmetic::mul::lemma_mul_is_distributive_add(2 * dst, p / (2 * dst), 1);
}

/// Every output pixel is the source pixel that its centre lies on: whichever source
/// pixel that is, all four bytes are its bytes.
pub proof fn law_reduction_shows_the_whole_picture(
    src: Seq<u8>,
    src_w: int,
    src_h: int,
    dst_w: int,
    dst_h: int,
    dx: int,
    dy: int,
    sx: int,
    sy: int,
    c: int,
)
    requires
        0 < src_w,
        0 < src_h,
        0 <= dx < dst_w,
        0 <= dy < dst_h,
        0 <= c < 4,
        2 * dst_w * sx <= (2 * dx + 1) * src_w < 2 * dst_w * (sx + 1),
        2 * dst_h * sy <= (2 * dy + 1) * src_h < 2 * dst_h * (sy + 1),
    ensures
        downscaled(src, src_w, src_h, dst_w, dst_h).len() == 4 * dst_w * dst_h,
        downscaled(src, src_w, src_h, dst_w, dst_h)[4 * dst_w * dy + 4 * dx + c] == src[4 * src_w
            * sy + 4 * sx + c],
{
    law_output_pixel_is_sampled_pixel(src, src_w, src_h, dst_w, dst_h, dx, dy, c);
    lemma_one_coordinate(dx, src_w, dst_w, sx);
    lemma_one_coordinate(dy, src_h, dst_h, sy);
}

proof fn lemma_one_coordinate(d: int, src: int, dst: int, s: int)
    requires
        0 < dst,
        2 * dst * s <= (2 * d + 1) * src < 2 * dst * (s + 1),
    ensures
        s == sample_coord(d, src, dst),
{
    let p = (2 * d + 1) * src;
    vstd::arithmetic::mul::lemma_mul_is_distributive_add(2 * dst, s, 1);
    vstd::arithmetic::mul::lemma_mul_is_commutative(2 * dst, s);
    lemma_fundamental_div_mod_converse(p, 2 * dst, s, p - 2 * dst * s);
}

/// The source must reach up to the last pixel sampled: the one under the centre of
/// the bottom right output pixel.
pub proof fn law_last_sampled_pixel(
    src_w: int,
    src_h: int,
    dst_w: int,
    dst_h: int,
    sx: int,
    sy: int,
)
    requires
        0 < dst_w,
        0 < dst_h,
        2 * dst_w * sx <= (2 * dst_w - 1) * src_w < 2 * dst_w * (sx + 1),
        2 * dst_h * sy <= (2 * dst_h - 1) * src_h < 2 * dst_h * (sy + 1),
    ensures
        sampled_end(src_w, src_h, dst_w, dst_h) == 4 * src_w * sy + 4 * sx + 4,
{
    lemma_one_coordinate(dst_w - 1, src_w, dst_w, sx);
    lemma_one_coordinate(dst_h - 1, src_h, dst_h, sy);
}

/// The size to reduce a capture to, said by inequalities: the width is the target
/// made even, the height is as much of it as keeps the picture in proportion, made
/// even, and there is such a size exactly if it is smaller than the capture both
/// ways and at least 16 by 16.
pub proof fn law_reduced_size_is_exact(target_width: int, w: int, h: int, tw: int, th: int)
    requires
        0 <= target_width,
        0 < w,
        0 <= h,
        tw % 2 == 0,
        th % 2 == 0,
        tw <= target_width < tw + 2,
        th * w <= tw * h < (th + 2) * w,
    ensures
        16 <= tw < w && 16 <= th < h ==> reduced_size(target_width, w, h) == Some((tw, th)),
        !(16 <= tw < w && 16 <= th < h) ==> reduced_size(target_width, w, h) is None,
{
    let p = tw * h;
    let q = p / w;
    lemma_fundamental_div_mod(p, w);
    assert(th <= q <= th + 1) by (nonlinear_arith)
        requires
            p == w * q + p % w,
            0 <= p % w < w,
            th * w <= p < (th + 2) * w,
            0 < w,
    ;
}

/// A capture without a smaller size is kept as it is; one with a smaller size is
/// reduced to it.
pub proof fn law_capture_is_reduced_or_kept(raw: Seq<u8>, w: u32, h: u32, target_width: u32)
    ensures
        match reduced_size(target_width as int, w as int, h as int) {
            Some((tw, th)) => prepared_pixels(raw, w, h, target_width) == downscaled(
                raw,
                w as int,
                h as int,
                tw,
                th,
            ),
            None => prepared_pixels(raw, w, h, target_width) == raw,
        },
        target_width < 16 ==> prepared_pixels(raw, w, h, target_width) == raw,
        target_width >= w + 2 ==> prepared_pixels(raw, w, h, target_width) == raw,
{
}

/// A display is captured at the preset's width or its own, whichever is less, with
/// the height in proportion, each made even, and at least two pixels high.
pub proof fn law_capture_size_is_exact(w: int, h: int, resolution: Resolution)
    requires
        1 <= w,
        1 <= h,
    ensures
        ({
            let (cw, ch) = capture_size(w, h, resolution);
            let t = match resolution.pixels() {
                Some(p) => if p < w {
                    p as int
                } else {
                    w
                },
                None => w,
            };
            &&& cw % 2 == 0 && ch % 2 == 0
            &&& cw <= t < cw + 2
            &&& t * h < 2 * w ==> ch == 2
            &&& t * h >= 2 * w ==> ch * w <= t * h < (ch + 2) * w
        }),
{
    let t = match resolution.pixels() {
        Some(p) => if p < w {
            p as int
        } else {
            w
        },
        None => w,
    };
    let p = t * h;
    let q = p / w;
    let ch = capture_size(w, h, resolution).1;
    lemma_fundamental_div_mod(p, w);
    lemma_proportional_bound(t, w, h);
    if p < 2 * w {
        assert(q < 2) by (nonlinear_arith)
            requires
                p == w * q + p % w,
                0 <= p % w < w,
                p < 2 * w,
                0 < w,
        ;
    } else {
        assert(q >= 2) by (nonlinear_arith)
            requires
                p == w * q + p % w,
                0 <= p % w < w,
                p >= 2 * w,
                0 < w,
        ;
        assert(ch * w <= p < (ch + 2) * w) by (nonlinear_arith)
            requires
                p == w * q + p % w,
                0 <= p % w < w,
                ch <= q <= ch + 1,
        ;
    }
}

/// Byte `k` of row `y` comes from byte `k` of the surface's row `y`, wherever that
/// row starts.
pub proof fn law_padding_is_left_out(
    raw: Seq<u8>,
    w: int,
    h: int,
    stride: int,
    y: int,
    k: int,
)
    requires
        0 <= y < h,
        0 <= k < 4 * w,
    ensures
        unpadded(raw, w, h, stride).len() == 4 * w * h,
        0 <= 4 * w * y + k < 4 * w * h,
        unpadded(raw, w, h, stride)[4 * w * y + k] == raw[stride * y + k],
{
    let row = 4 * w;
    lemma_row_position(row, y, k);
    assert(0 <= row * y && row * y + row <= row * h) by (nonlinear_arith)
        requires
            0 <= row,
            0 <= y,
            y + 1 <= h,
    ;
}

/// The interval is the longest at which a second holds as many frames as asked for.
pub proof fn law_interval_fits_the_rate(fps: u32)
    ensures
        fps > 0 ==> interval_us(fps) * fps <= 1_000_000 < (interval_us(fps) + 1) * fps,
        interval_us(0) == 1_000_000,
{
    if fps > 0 {
        let us = interval_us(fps);
        let n = fps as int;
        lemma_fundamental_div_mod(1_000_000, n);
        assert(us * n <= 1_000_000 < (us + 1) * n) by (nonlinear_arith)
            requires
                1_000_000 == n * us + 1_000_000int % n,
                0 <= 1_000_000int % n < n,
        ;
    }
}

/// Pacer after ticks at these times.
pub open spec fn paced(p: Pacer, times: Seq<int>) -> Pacer
    decreases times.len(),
{
    if times.len() == 0 {
        p
    } else {
        paced(p, times.drop_last()).ticked(times.last()).0
    }
}

/// Ticks keep their distance: tick `n` is due `n` intervals after the first one,
/// however late the ones before it were, and a loop that is late does not sleep.
pub proof fn law_ticks_keep_their_distance(p: Pacer, times: Seq<int>, now_ns: int)
    requires
        p.next_ns + times.len() * p.interval_ns <= u128::MAX,
    ensures
        ({
            let due = p.next_ns + times.len() * p.interval_ns;
            let sleep = paced(p, times).ticked(now_ns).1;
            &&& paced(p, times).next_ns == due
            &&& paced(p, times).interval_ns == p.interval_ns
            &&& now_ns <= due ==> now_ns + sleep == due
            &&& now_ns >= due ==> sleep == 0
        }),
    decreases times.len(),
{
    if times.len() > 0 {
        let n = times.len() as int;
        let step = p.interval_ns as int;
        assert(n * step == (n - 1) * step + step) by (nonlinear_arith);
        law_ticks_keep_their_distance(p, times.drop_last(), times.last());
    }
}

/// Outcome of the questions, given the answer to each.
pub open spec fn preflight_outcome(
    supported: bool,
    permitted: bool,
    granted: bool,
    displays: bool,
) -> Result<Preflight, CaptureRefusal> {
    match preflight_answer(Preflight::Supported, supported) {
        Ok(Preflight::Permitted) => match preflight_answer(Preflight::Permitted, permitted) {
            Ok(Preflight::PermissionGranted) => match preflight_answer(
                Preflight::PermissionGranted,
                granted,
            ) {
                Ok(Preflight::HasDisplay) => preflight_answer(Preflight::HasDisplay, displays),
                other => other,
            },
            Ok(Preflight::HasDisplay) => preflight_answer(Preflight::HasDisplay, displays),
            other => other,
        },
        other => other,
    }
}

/// Capture starts exactly where it is supported, permitted, at once or when asked,
/// and has a display; otherwise the first of these that is missing is the reason.
pub proof fn law_preflight(supported: bool, permitted: bool, granted: bool, displays: bool)
    ensures
        preflight_outcome(supported, permitted, granted, displays) == if !supported {
            Err::<Preflight, CaptureRefusal>(CaptureRefusal::NotSupported)
        } else if !permitted && !granted {
            Err(CaptureRefusal::PermissionDenied)
        } else if !displays {
            Err(CaptureRefusal::NoDisplay)
        } else {
            Ok(Preflight::Ready)
        },
        forall|yes: bool|
            #[trigger] preflight_answer(Preflight::Ready, yes) == Ok::<Preflight, CaptureRefusal>(
                Preflight::Ready,
            ),
{
}

/// Filter after a run of captured frames, each good or empty.
pub open spec fn filtered(f: FrameFilter, frames: Seq<bool>) -> FrameFilter
    decreases frames.len(),
{
    if frames.len() == 0 {
        f
    } else {
        filtered(f, frames.drop_last()).offered(frames.last()).0
    }
}

/// The user is told at the fifth empty frame of every run, at no other frame, and a
/// good frame ends the run.
pub proof fn law_fifth_empty_frame_is_reported(f: FrameFilter, frames: Seq<bool>, empties: nat)
    requires
        frames.len() == 1 + empties,
        frames[0],
        forall|i: int| 1 <= i < frames.len() ==> !#[trigger] frames[i],
        empties < u32::MAX,
    ensures
        filtered(f, frames).empties_in_a_row == empties,
        filtered(f, frames).offered(false).1 <==> empties + 1 == 5,
        !filtered(f, frames).offered(true).1,
        filtered(f, frames).offered(true).0.empties_in_a_row == 0,
    decreases empties,
{
    if empties > 0 {
        law_fifth_empty_frame_is_reported(f, frames.drop_last(), (empties - 1) as nat);
    } else {
        assert(frames.drop_last() =~= Seq::<bool>::empty());
        assert(frames.last());
    }
}

/// A display that reports no size counts as one pixel.
pub proof fn law_sizeless_display_counts_as_a_pixel(w: int, h: int, resolution: Resolution)
    requires
        0 <= w,
        0 <= h,
    ensures
        capture_size(0, h, resolution) == capture_size(1, h, resolution),
        capture_size(w, 0, resolution) == capture_size(w, 1, resolution),
{
}

/// The first tick of a pacer is due at once, and the interval is the rate's.
pub proof fn law_pacer_starts_at_once(now_ns: u128, fps: u32)
    ensures
        Pacer::starting(now_ns, fps).ticked(now_ns as int).1 == 0,
        Pacer::starting(now_ns, fps).next_ns == now_ns,
        Pacer::starting(now_ns, fps).interval_ns == 1000 * interval_us(fps),
{
    if fps > 0 {
        vstd::arithmetic::div_mod::lemma_div_pos_is_pos(1_000_000, fps as int);
        vstd::arithmetic::div_mod::lemma_div_is_ordered_by_denominator(1_000_000, 1, fps as int);
    }
}

/// A tight frame has four bytes per pixel and row, and no more.
pub proof fn law_tight_frames(f: VideoFrame, width: u32, height: u32)
    ensures
        f.is_tight(width, height) <==> f.width == width && f.height == height && f.stride == 4
            * width,
{
}

} // verus!
