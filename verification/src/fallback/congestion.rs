//! Bandwidth control of the relay path.
//!
//! Sends leave their traces in a [`LinkWindow`]. Twice a second the
//! [`Controller`] takes the window and picks the bitrate that the encoder aims
//! for: additive increase while the link is quiet, multiplicative decrease when
//! it is not.

use crate::single::{
    lemma_round_error, lemma_round_to_near_multiple, lemma_small_is_exact, lemma_spacing_bounds,
    lemma_spacing_divides, nearest_single, round_to_single, single_spacing, SIGNIFICAND_LIMIT,
};
use vstd::arithmetic::power2::lemma2_to64;
use vstd::prelude::*;

verus! {

/// Lower bound the controller never drops below. At lower bitrates the VP8
/// encoder produces frames so blocky that the share is unusable.
pub const MIN_BITRATE_KBPS: u32 = 250;

/// A send that takes this long means that the socket's send buffer is full.
pub const BACKPRESSURE_LATENCY_MS: u64 = 100;

/// Cap on the kernel's TCP send buffer, so that a slow link shows up as send
/// latency instead of disappearing into the socket's queue.
pub const TCP_SEND_BUFFER_BYTES: u32 = 65_536;

/// Additive increase per healthy second, in kbps.
pub const AIMD_INCREASE_KBPS: u32 = 200;

/// How long the link must be quiet before the bitrate climbs again.
pub const HEALTHY_HOLD_MS: u64 = 1_500;

/// Time between two controller steps.
pub const CONTROLLER_INTERVAL_MS: u64 = 500;

pub const NANOS_PER_MILLI: u128 = 1_000_000;

/// What the send path saw since the controller last looked.
#[derive(Clone, Copy)]
pub struct LinkWindow {
    /// Bytes handed to the socket.
    pub bytes: u64,
    /// Video frames lost or dropped.
    pub drops: u32,
    /// Whether any send took [`BACKPRESSURE_LATENCY_MS`] or longer.
    pub backpressure: bool,
}

pub open spec fn empty_window() -> LinkWindow {
    LinkWindow { bytes: 0, drops: 0, backpressure: false }
}

impl LinkWindow {
    pub fn new() -> (w: LinkWindow)
        ensures
            w == empty_window(),
    {
        LinkWindow { bytes: 0, drops: 0, backpressure: false }
    }

    /// The window after `bytes` more went out in a send of `elapsed_ns`.
    pub open spec fn after_send(self, bytes: u64, elapsed_ns: u128) -> LinkWindow {
        LinkWindow {
            bytes: self.bytes.wrapping_add(bytes),
            drops: self.drops,
            backpressure: self.backpressure || elapsed_ns >= BACKPRESSURE_LATENCY_MS
                * NANOS_PER_MILLI,
        }
    }

    /// The window after `frames` more were lost.
    pub open spec fn after_drop(self, frames: u32) -> LinkWindow {
        LinkWindow {
            bytes: self.bytes,
            drops: self.drops.wrapping_add(frames),
            backpressure: self.backpressure,
        }
    }

    /// Whether the window holds a congestion signal.
    pub open spec fn unhealthy(self) -> bool {
        self.backpressure || self.drops > 0
    }

    /// Records a send. Both counters wrap around, as shared counters do.
    pub fn record_send(&mut self, bytes: u64, elapsed_ns: u128)
        ensures
            *final(self) == old(self).after_send(bytes, elapsed_ns),
    {
        self.bytes = self.bytes.wrapping_add(bytes);
        if elapsed_ns >= BACKPRESSURE_LATENCY_MS as u128 * NANOS_PER_MILLI {
            self.backpressure = true;
        }
    }

    /// Records lost frames.
    pub fn record_drops(&mut self, frames: u32)
        ensures
            *final(self) == old(self).after_drop(frames),
    {
        self.drops = self.drops.wrapping_add(frames);
    }

    /// Hands the window out and starts an empty one.
    pub fn take(&mut self) -> (w: LinkWindow)
        ensures
            w == *old(self),
            *final(self) == empty_window(),
    {
        let w = *self;
        *self = LinkWindow::new();
        w
    }
}

/// Bitrate that the window's bytes amount to over one controller interval,
/// capped at what 32 bits hold.
pub open spec fn goodput_kbps(bytes: u64) -> nat {
    let kbps = bytes as nat * 16 / 1000;
    if kbps > u32::MAX {
        u32::MAX as nat
    } else {
        kbps
    }
}

/// `kbps * 0.75` in single precision, fraction cut off.
pub open spec fn three_quarters(kbps: nat) -> nat {
    nearest_single(3 * nearest_single(kbps)) / 4
}

/// Numerator over 2^24 of the single-precision number nearest to 0.9.
pub const NINE_TENTHS_SCALED: u64 = 15_099_494;

/// `kbps * 0.9` in single precision, fraction cut off.
pub open spec fn nine_tenths(kbps: nat) -> nat {
    nearest_single(NINE_TENTHS_SCALED as nat * nearest_single(kbps)) / SIGNIFICAND_LIMIT as nat
}

pub open spec fn at_least(a: nat, b: nat) -> nat {
    if a < b {
        b
    } else {
        a
    }
}

pub open spec fn at_most(a: nat, b: nat) -> nat {
    if a > b {
        b
    } else {
        a
    }
}

/// Decrease step: a quarter off the current target, or nine tenths of what the
/// link was measured to carry if that is lower, but not under the floor.
pub open spec fn decreased(current: nat, goodput: nat) -> nat {
    let floor = MIN_BITRATE_KBPS as nat;
    at_least(at_most(three_quarters(current), at_least(nine_tenths(goodput), floor)), floor)
}

/// Increase step: one interval's share of [`AIMD_INCREASE_KBPS`], up to the
/// ceiling.
pub open spec fn increased(current: nat, max: nat) -> nat {
    at_most(
        at_most(
            current + AIMD_INCREASE_KBPS as nat * CONTROLLER_INTERVAL_MS as nat / 1000,
            u32::MAX as nat,
        ),
        max,
    )
}

/// The target that one controller step picks. `quiet_ns` is the time since the
/// last unhealthy step.
pub open spec fn next_target(window: LinkWindow, current: nat, max: nat, quiet_ns: int) -> nat {
    if window.unhealthy() {
        decreased(current, goodput_kbps(window.bytes))
    } else if quiet_ns >= HEALTHY_HOLD_MS * NANOS_PER_MILLI {
        increased(current, max)
    } else {
        current
    }
}

/// Bitrate controller: additive increase, multiplicative decrease.
pub struct Controller {
    /// Ceiling of the target bitrate.
    pub max_kbps: u32,
    /// Time of the last unhealthy step, or of the controller's start.
    pub last_unhealthy_ns: u128,
}

/// The controller after a step, and the target that the step picks.
pub open spec fn controlled(c: Controller, window: LinkWindow, current: u32, now_ns: u128) -> (
    Controller,
    nat,
) {
    (
        Controller {
            max_kbps: c.max_kbps,
            last_unhealthy_ns: if window.unhealthy() {
                now_ns
            } else {
                c.last_unhealthy_ns
            },
        },
        next_target(
            window,
            current as nat,
            c.max_kbps as nat,
            now_ns - c.last_unhealthy_ns,
        ),
    )
}

fn single_three_quarters(kbps: u32) -> (r: u32)
    ensures
        r == three_quarters(kbps as nat),
{
    let rounded = round_to_single(kbps as u64);
    proof {
        lemma_single_bound(kbps as nat, 0x1_0000_0000);
    }
    let product = round_to_single(3 * rounded);
    proof {
        lemma_single_bound(3 * rounded as nat, 0x3_1000_0000);
    }
    (product / 4) as u32
}

fn single_nine_tenths(kbps: u32) -> (r: u32)
    ensures
        r == nine_tenths(kbps as nat),
{
    let rounded = round_to_single(kbps as u64);
    proof {
        lemma_single_bound(kbps as nat, 0x1_0000_0000);
    }
    let product = round_to_single(NINE_TENTHS_SCALED * rounded);
    proof {
        lemma_single_bound(NINE_TENTHS_SCALED as nat * rounded as nat, 0xf0_0000_0000_0000);
    }
    (product / SIGNIFICAND_LIMIT) as u32
}

/// Rounding raises a number by less than a millionth.
proof fn lemma_single_bound(n: nat, bound: nat)
    requires
        n <= bound,
    ensures
        0x10_0000 * nearest_single(n) <= 0x10_0001 * bound,
{
    lemma_spacing_bounds(n);
    lemma_round_error(n, single_spacing(n));
    if n < SIGNIFICAND_LIMIT {
        lemma_small_is_exact(n);
    }
}

impl Controller {
    pub fn new(max_kbps: u32, now_ns: u128) -> (c: Controller)
        ensures
            c.max_kbps == max_kbps,
            c.last_unhealthy_ns == now_ns,
    {
        Controller { max_kbps, last_unhealthy_ns: now_ns }
    }

    /// One controller step: the new target bitrate for the window that ended
    /// at `now_ns`.
    pub fn step(&mut self, window: LinkWindow, current: u32, now_ns: u128) -> (target: u32)
        ensures
            (*final(self), target as nat) == controlled(*old(self), window, current, now_ns),
            final(self).max_kbps == old(self).max_kbps,
            final(self).last_unhealthy_ns == if window.unhealthy() {
                now_ns
            } else {
                old(self).last_unhealthy_ns
            },
            target == next_target(
                window,
                current as nat,
                old(self).max_kbps as nat,
                now_ns - old(self).last_unhealthy_ns,
            ),
    {
        if window.backpressure || window.drops > 0 {
            self.last_unhealthy_ns = now_ns;
            let scaled: u128 = window.bytes as u128 * 16 / 1000;
            let goodput: u32 = if scaled > 0xffff_ffff {
                0xffff_ffff
            } else {
                scaled as u32
            };
            let from_aimd = single_three_quarters(current);
            let from_meter = single_nine_tenths(goodput);
            let carried = if from_meter < MIN_BITRATE_KBPS {
                MIN_BITRATE_KBPS
            } else {
                from_meter
            };
            let lower = if from_aimd > carried {
                carried
            } else {
                from_aimd
            };
            if lower < MIN_BITRATE_KBPS {
                MIN_BITRATE_KBPS
            } else {
                lower
            }
        } else if now_ns.saturating_sub(self.last_unhealthy_ns) >= HEALTHY_HOLD_MS as u128
            * NANOS_PER_MILLI {
            let share: u64 = AIMD_INCREASE_KBPS as u64 * CONTROLLER_INTERVAL_MS / 1000;
            let raised = current.saturating_add(share as u32);
            if raised > self.max_kbps {
                self.max_kbps
            } else {
                raised
            }
        } else {
            current
        }
    }
}

/// The cut takes exactly a quarter off, fraction cut off, for every target
/// below five gigabits per second.
pub proof fn law_cut_is_three_quarters(kbps: nat)
    requires
        3 * kbps < SIGNIFICAND_LIMIT,
    ensures
        three_quarters(kbps) == kbps * 3 / 4,
{
    lemma_small_is_exact(kbps);
    lemma_small_is_exact(3 * kbps);
}

/// The measured bound is exactly nine tenths of the goodput, fraction cut off,
/// up to one gigabit per second.
pub proof fn law_meter_is_nine_tenths(kbps: nat)
    requires
        kbps <= 1_000_000,
    ensures
        nine_tenths(kbps) == kbps * 9 / 10,
{
    lemma_small_is_exact(kbps);
    let n = NINE_TENTHS_SCALED as nat * kbps;
    let step = single_spacing(n);
    lemma_spacing_bounds(n);
    lemma_round_error(n, step);
    if kbps % 10 == 0 && kbps > 0 {
        let whole = kbps / 10 * 9;
        lemma2_to64();
        let m = lemma_spacing_divides(n, 24);
        assert((whole * m) * step == whole * SIGNIFICAND_LIMIT) by (nonlinear_arith)
            requires
                step * m == SIGNIFICAND_LIMIT,
        ;
        lemma_round_to_near_multiple(n, step, whole * m);
    } else if kbps < 2 {
        lemma_small_is_exact(n);
    }
}

/// A cut always lowers a target above zero.
proof fn lemma_cut_lowers(kbps: nat)
    requires
        0 < kbps,
    ensures
        three_quarters(kbps) < kbps,
{
    lemma_single_bound(kbps, kbps);
    lemma_single_bound(3 * nearest_single(kbps), 3 * nearest_single(kbps));
}

/// The target never leaves the range between the floor and the ceiling.
pub proof fn law_target_stays_in_range(window: LinkWindow, current: nat, max: nat, quiet_ns: int)
    requires
        MIN_BITRATE_KBPS <= current <= max,
    ensures
        MIN_BITRATE_KBPS <= next_target(window, current, max, quiet_ns),
        next_target(window, current, max, quiet_ns) <= max,
{
    lemma_cut_lowers(current);
}

/// A congestion signal lowers every target above the floor, and holds one at
/// the floor.
pub proof fn law_congestion_lowers_target(
    window: LinkWindow,
    current: nat,
    max: nat,
    quiet_ns: int,
)
    requires
        window.unhealthy(),
        MIN_BITRATE_KBPS <= current,
    ensures
        current > MIN_BITRATE_KBPS ==> next_target(window, current, max, quiet_ns) < current,
        current == MIN_BITRATE_KBPS ==> next_target(window, current, max, quiet_ns) == current,
{
    lemma_cut_lowers(current);
}

/// Under congestion the target is no higher than the cut, and no higher than
/// nine tenths of what the link carried, unless the floor is.
pub proof fn law_congestion_bounds_target(
    window: LinkWindow,
    current: nat,
    max: nat,
    quiet_ns: int,
)
    requires
        window.unhealthy(),
    ensures
        next_target(window, current, max, quiet_ns) <= at_least(
            three_quarters(current),
            MIN_BITRATE_KBPS as nat,
        ),
        next_target(window, current, max, quiet_ns) <= at_least(
            nine_tenths(goodput_kbps(window.bytes)),
            MIN_BITRATE_KBPS as nat,
        ),
{
}

/// A healthy second, two controller steps long, raises the target by
/// [`AIMD_INCREASE_KBPS`] or to the ceiling.
pub proof fn law_healthy_second_raises_target(
    first: LinkWindow,
    second: LinkWindow,
    current: nat,
    max: nat,
    quiet_ns: int,
)
    requires
        !first.unhealthy(),
        !second.unhealthy(),
        quiet_ns >= HEALTHY_HOLD_MS * NANOS_PER_MILLI,
        max <= u32::MAX,
    ensures
        next_target(
            second,
            next_target(first, current, max, quiet_ns),
            max,
            quiet_ns + CONTROLLER_INTERVAL_MS * NANOS_PER_MILLI,
        ) == at_most(current + AIMD_INCREASE_KBPS as nat, max),
{
}

/// A healthy step within the hold time after a congestion signal leaves the
/// target alone.
pub proof fn law_hold_keeps_target(window: LinkWindow, current: nat, max: nat, quiet_ns: int)
    requires
        !window.unhealthy(),
        quiet_ns < HEALTHY_HOLD_MS * NANOS_PER_MILLI,
    ensures
        next_target(window, current, max, quiet_ns) == current,
{
}

/// Under congestion, however much was lost, the target is the least of a quarter
/// off and nine tenths of what the link carried, fractions cut off, and 250 kbps
/// where that would be less.
pub proof fn law_congestion_target_in_plain_arithmetic(
    window: LinkWindow,
    current: nat,
    max: nat,
    quiet_ns: int,
)
    requires
        window.backpressure || window.drops > 0,
        current < 0x40_0000,
        window.bytes * 16 / 1000 <= 1_000_000,
    ensures
        ({
            let target = next_target(window, current, max, quiet_ns);
            let cut = current * 3 / 4;
            let carried = window.bytes * 16 / 1000 * 9 / 10;
            &&& target >= 250
            &&& cut <= 250 || carried <= 250 ==> target == 250
            &&& 250 <= cut <= carried ==> target == cut
            &&& 250 <= carried <= cut ==> target == carried
        }),
{
    law_cut_is_three_quarters(current);
    law_meter_is_nine_tenths(window.bytes as nat * 16 / 1000);
}

/// At any bitrate whatever the cut leaves three quarters, give or take a part in
/// half a million and one kbps.
pub proof fn law_cut_is_close_to_three_quarters(kbps: nat)
    ensures
        0x8_0000 * (4 * three_quarters(kbps)) <= 0x8_0001 * (3 * kbps),
        0x8_0000 * (3 * kbps) <= 0x8_0001 * (4 * three_quarters(kbps) + 4),
{
    let a = nearest_single(kbps);
    lemma_relative_error(kbps);
    lemma_relative_error(3 * a);
}

/// At any bitrate whatever nine tenths are nine tenths, give or take a part in
/// half a million and one kbps.
pub proof fn law_meter_is_close_to_nine_tenths(kbps: nat)
    ensures
        0x8_0000 * (10 * nine_tenths(kbps)) <= 0x8_0001 * (9 * kbps),
        0x8_0000 * (9 * kbps) <= 0x8_0001 * (10 * nine_tenths(kbps) + 10),
{
    let a = nearest_single(kbps);
    let n = NINE_TENTHS_SCALED as nat * a;
    lemma_relative_error(kbps);
    lemma_relative_error(n);
}

/// Rounding moves a number by no more than a part in sixteen million.
proof fn lemma_relative_error(n: nat)
    ensures
        0x100_0000 * nearest_single(n) <= 0x100_0001 * n,
        0x100_0000 * n <= 0x100_0000 * nearest_single(n) + n,
{
    lemma_spacing_bounds(n);
    lemma_round_error(n, single_spacing(n));
    if n < SIGNIFICAND_LIMIT {
        lemma_small_is_exact(n);
    }
}

/// A congestion signal is any loss at all, or one send that blocked.
pub proof fn law_any_loss_is_congestion(window: LinkWindow)
    ensures
        window.unhealthy() <==> window.backpressure || window.drops != 0,
{
}

/// A window starts blank, and what is recorded in it adds up.
pub proof fn law_window_adds_up(window: LinkWindow, bytes: u64, elapsed_ns: u128, frames: u32)
    ensures
        empty_window().bytes == 0 && empty_window().drops == 0 && !empty_window().backpressure,
        ({
            let sent = window.after_send(bytes, elapsed_ns);
            &&& window.bytes + bytes <= u64::MAX ==> sent.bytes == window.bytes + bytes
            &&& window.bytes + bytes > u64::MAX ==> sent.bytes == window.bytes + bytes - u64::MAX
                - 1
            &&& sent.drops == window.drops
            &&& sent.backpressure <==> window.backpressure || elapsed_ns >= 100_000_000
        }),
        ({
            let lost = window.after_drop(frames);
            &&& window.drops + frames <= u32::MAX ==> lost.drops == window.drops + frames
            &&& window.drops + frames > u32::MAX ==> lost.drops == window.drops + frames - u32::MAX
                - 1
            &&& lost.bytes == window.bytes
            &&& lost.backpressure == window.backpressure
        }),
{
}

/// Once the link has been quiet for a second and a half, a step raises the target
/// by 100 kbps, half of the 200 that a healthy second brings, up to the ceiling.
/// Before that it leaves the target alone.
pub proof fn law_quiet_link_raises_target(
    window: LinkWindow,
    current: nat,
    max: nat,
    quiet_ns: int,
)
    requires
        !window.backpressure,
        window.drops == 0,
        max <= u32::MAX,
    ensures
        ({
            let target = next_target(window, current, max, quiet_ns);
            &&& quiet_ns < 1_500_000_000 ==> target == current
            &&& quiet_ns >= 1_500_000_000 && current + 100 <= max ==> target == current + 100
            &&& quiet_ns >= 1_500_000_000 && current + 100 > max ==> target == max
        }),
{
}

/// Quiet counts from the last congestion signal: the steps of the second and a
/// half that follow one leave the target alone, whatever the controller went
/// through before, and the first healthy step after that raises it.
pub proof fn law_congestion_starts_the_hold(
    c: Controller,
    bad: LinkWindow,
    current: u32,
    at_ns: u128,
    good: LinkWindow,
    next: u32,
    now_ns: u128,
)
    requires
        bad.backpressure || bad.drops > 0,
        !good.backpressure,
        good.drops == 0,
        next + 100 <= c.max_kbps,
    ensures
        ({
            let after = controlled(c, bad, current, at_ns).0;
            let (last, target) = controlled(after, good, next, now_ns);
            &&& after.max_kbps == c.max_kbps
            &&& after.last_unhealthy_ns == at_ns
            &&& last == after
            &&& now_ns - at_ns < 1_500_000_000 ==> target == next
            &&& now_ns - at_ns >= 1_500_000_000 ==> target == next + 100
        }),
{
}

/// What the controller picks depends on the window, the target, the ceiling and
/// how long the link has been quiet, and on nothing else about the clock.
pub proof fn law_controller_steps_by_target(
    c: Controller,
    window: LinkWindow,
    current: u32,
    now_ns: u128,
)
    ensures
        controlled(c, window, current, now_ns).1 == next_target(
            window,
            current as nat,
            c.max_kbps as nat,
            now_ns - c.last_unhealthy_ns,
        ),
        controlled(c, window, current, now_ns).0.max_kbps == c.max_kbps,
        window.backpressure || window.drops > 0 ==> controlled(
            c,
            window,
            current,
            now_ns,
        ).0.last_unhealthy_ns == now_ns,
        !window.backpressure && window.drops == 0 ==> controlled(
            c,
            window,
            current,
            now_ns,
        ).0.last_unhealthy_ns == c.last_unhealthy_ns,
{
}

/// However fast the link and however high the target, congestion takes the target
/// to the cut or to the measured bound, whichever is less, but not under 250 kbps.
/// What the link carried counts up to what 32 bits hold.
pub proof fn law_congestion_target_at_any_speed(
    window: LinkWindow,
    current: nat,
    max: nat,
    quiet_ns: int,
)
    requires
        window.backpressure || window.drops > 0,
    ensures
        ({
            let target = next_target(window, current, max, quiet_ns);
            let kbps: nat = window.bytes as nat * 16 / 1000;
            let cut = three_quarters(current);
            let carried = nine_tenths(
                if kbps > 0xffff_ffff {
                    0xffff_ffff
                } else {
                    kbps
                },
            );
            &&& cut <= 250 || carried <= 250 ==> target == 250
            &&& 250 <= cut <= carried ==> target == cut
            &&& 250 <= carried <= cut ==> target == carried
        }),
{
}

} // verus!
