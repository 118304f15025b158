//! Capture presets and the preparation of captured video and audio.

pub mod audio;
pub mod video;

pub use audio::AudioFrame;
pub use video::VideoFrame;

use vstd::prelude::*;

verus! {

/// A target capture resolution, named after the standard heights.
#[derive(Clone, Copy, Debug, PartialEq, Eq, Structural)]
pub enum Resolution {
    /// The source display's own dimensions, without downscaling.
    Native,
    P480,
    P720,
    P1080,
    P1440,
    P2160,
}

impl Resolution {
    /// Pixel width of the preset.
    pub open spec fn pixels(self) -> Option<u32> {
        match self {
            Resolution::Native => None,
            Resolution::P480 => Some(640),
            Resolution::P720 => Some(1280),
            Resolution::P1080 => Some(1920),
            Resolution::P1440 => Some(2560),
            Resolution::P2160 => Some(3840),
        }
    }

    /// Pixel width of the preset. The height follows from the source's aspect
    /// ratio where it is used. `None` means the source's own width.
    pub fn width(self) -> (w: Option<u32>)
        ensures
            w == self.pixels(),
    {
        match self {
            Resolution::Native => None,
            Resolution::P480 => Some(640),
            Resolution::P720 => Some(1280),
            Resolution::P1080 => Some(1920),
            Resolution::P1440 => Some(2560),
            Resolution::P2160 => Some(3840),
        }
    }
}

/// User-facing video quality preset, chosen before sharing starts and kept for
/// the whole share. Lower presets shrink pixel volume, frame rate and bitrate
/// together.
#[derive(Clone, Copy, Debug, PartialEq, Eq, Structural)]
pub enum Quality {
    Low,
    Medium,
    High,
    Ultra,
    /// The source display's native resolution, at the frame rate of `High` and
    /// with a bitrate that grows with the pixel volume.
    Original,
}

/// Ceiling of the bitrate of [`Quality::Original`], in kbps.
pub const ORIGINAL_MAX_KBPS: u32 = 40_000;

impl Quality {
    pub open spec fn frame_rate(self) -> u32 {
        match self {
            Quality::Low => 15,
            Quality::Medium => 24,
            Quality::High | Quality::Original => 30,
            Quality::Ultra => 60,
        }
    }

    pub open spec fn target(self) -> Resolution {
        match self {
            Quality::Low => Resolution::P720,
            Quality::Medium | Quality::High | Quality::Ultra => Resolution::P1080,
            Quality::Original => Resolution::Native,
        }
    }

    pub open spec fn kbps(self) -> u32 {
        match self {
            Quality::Low => 1_200,
            Quality::Medium => 2_500,
            Quality::High => 4_000,
            Quality::Ultra | Quality::Original => 8_000,
        }
    }

    pub open spec fn text(self) -> Seq<char> {
        match self {
            Quality::Low => "Low (720p · 15 fps · 1.2 Mbps)"@,
            Quality::Medium => "Medium (1080p · 24 fps · 2.5 Mbps)"@,
            Quality::High => "High (1080p · 30 fps · 4 Mbps)"@,
            Quality::Ultra => "Ultra (1080p · 60 fps · 8 Mbps)"@,
            Quality::Original => "Original (native · 30 fps · 8 Mbps)"@,
        }
    }

    /// Bitrate for a capture of this size. Fixed presets ignore the size;
    /// `Original` spends a tenth of a bit on each pixel of each of its 30 frames
    /// per second, between its static bitrate and [`ORIGINAL_MAX_KBPS`].
    pub open spec fn kbps_for(self, width: u32, height: u32) -> int {
        let scaled = width * height * 30 / 10_000;
        if !(self is Original) || scaled < self.kbps() {
            self.kbps() as int
        } else if scaled > ORIGINAL_MAX_KBPS {
            ORIGINAL_MAX_KBPS as int
        } else {
            scaled
        }
    }

    /// Frames per second.
    pub fn fps(self) -> (r: u32)
        ensures
            r == self.frame_rate(),
    {
        match self {
            Quality::Low => 15,
            Quality::Medium => 24,
            Quality::High | Quality::Original => 30,
            Quality::Ultra => 60,
        }
    }

    /// Target resolution.
    pub fn resolution(self) -> (r: Resolution)
        ensures
            r == self.target(),
    {
        match self {
            Quality::Low => Resolution::P720,
            Quality::Medium | Quality::High | Quality::Ultra => Resolution::P1080,
            Quality::Original => Resolution::Native,
        }
    }

    /// Bitrate ceiling in kbps, as advertised.
    pub fn bitrate_kbps(self) -> (r: u32)
        ensures
            r == self.kbps(),
    {
        match self {
            Quality::Low => 1_200,
            Quality::Medium => 2_500,
            Quality::High => 4_000,
            Quality::Ultra | Quality::Original => 8_000,
        }
    }

    /// Bitrate ceiling in kbps for a capture of this size.
    pub fn bitrate_kbps_for_capture(self, width: u32, height: u32) -> (r: u32)
        ensures
            r == self.kbps_for(width, height),
    {
        let floor = self.bitrate_kbps();
        match self {
            Quality::Original => {
                proof {
                    assert(width * height <= u32::MAX * u32::MAX) by (nonlinear_arith)
                        requires
                            width <= u32::MAX,
                            height <= u32::MAX,
                    ;
                }
                let pixels: u128 = width as u128 * height as u128;
                let scaled: u128 = pixels * 30 / 10_000;
                if scaled < floor as u128 {
                    floor
                } else if scaled > ORIGINAL_MAX_KBPS as u128 {
                    ORIGINAL_MAX_KBPS
                } else {
                    scaled as u32
                }
            },
            _ => floor,
        }
    }

    /// Label for the quality picker.
    pub fn label(self) -> (r: &'static str)
        ensures
            r@ == self.text(),
    {
        match self {
            Quality::Low => "Low (720p · 15 fps · 1.2 Mbps)",
            Quality::Medium => "Medium (1080p · 24 fps · 2.5 Mbps)",
            Quality::High => "High (1080p · 30 fps · 4 Mbps)",
            Quality::Ultra => "Ultra (1080p · 60 fps · 8 Mbps)",
            Quality::Original => "Original (native · 30 fps · 8 Mbps)",
        }
    }
}

impl Default for Quality {
    fn default() -> (q: Quality)
        ensures
            q == Quality::High,
    {
        Quality::High
    }
}

/// Rank of the fixed presets, lowest first.
pub open spec fn preset_rank(q: Quality) -> int {
    match q {
        Quality::Low => 0,
        Quality::Medium => 1,
        Quality::High => 2,
        Quality::Ultra => 3,
        Quality::Original => 4,
    }
}

/// A lower preset has a lower frame rate, a lower bitrate and no more pixels than
/// a higher one.
pub proof fn law_lower_presets_shrink_together(low: Quality, high: Quality)
    requires
        preset_rank(low) < preset_rank(high),
        high !is Original,
    ensures
        low.frame_rate() < high.frame_rate(),
        low.kbps() < high.kbps(),
        low.target().pixels() is Some,
        high.target().pixels() is Some,
        low.target().pixels()->0 <= high.target().pixels()->0,
{
}

/// The bitrate for a capture lies between the advertised bitrate and the
/// ceiling of `Original`, and fixed presets keep the advertised one.
pub proof fn law_capture_bitrate_is_bounded(q: Quality, width: u32, height: u32)
    ensures
        q.kbps() <= q.kbps_for(width, height) <= ORIGINAL_MAX_KBPS,
        q !is Original ==> q.kbps_for(width, height) == q.kbps(),
{
}

/// More pixels never get a lower bitrate.
pub proof fn law_capture_bitrate_grows_with_pixels(q: Quality, w1: u32, h1: u32, w2: u32, h2: u32)
    requires
        w1 * h1 <= w2 * h2,
    ensures
        q.kbps_for(w1, h1) <= q.kbps_for(w2, h2),
{
}

/// The presets as advertised.
pub proof fn law_presets_are_as_advertised()
    ensures
        Quality::Low.frame_rate() == 15 && Quality::Low.kbps() == 1_200,
        Quality::Medium.frame_rate() == 24 && Quality::Medium.kbps() == 2_500,
        Quality::High.frame_rate() == 30 && Quality::High.kbps() == 4_000,
        Quality::Ultra.frame_rate() == 60 && Quality::Ultra.kbps() == 8_000,
        Quality::Original.frame_rate() == 30 && Quality::Original.kbps() == 8_000,
        Quality::Low.target().pixels() == Some(1280u32),
        Quality::Medium.target().pixels() == Some(1920u32),
        Quality::High.target().pixels() == Some(1920u32),
        Quality::Ultra.target().pixels() == Some(1920u32),
        Quality::Original.target().pixels() is None,
        Resolution::P480.pixels() == Some(640u32),
        Resolution::P1440.pixels() == Some(2560u32),
        Resolution::P2160.pixels() == Some(3840u32),
{
}

/// `Original` spends three kbps on every thousand pixels, fractions cut off, from
/// 8 to 40 Mbps; no other preset looks at the size.
pub proof fn law_original_scales_with_pixels(q: Quality, width: u32, height: u32)
    ensures
        q != Quality::Original ==> q.kbps_for(width, height) == q.kbps(),
        q == Quality::Original ==> {
            let kbps = q.kbps_for(width, height);
            &&& 8_000 <= kbps <= 40_000
            &&& 8_000 < kbps ==> 1000 * kbps <= 3 * (width * height)
            &&& kbps < 40_000 ==> 3 * (width * height) < 1000 * (kbps + 1)
        },
{
    let pixels = width * height;
    assert(width * height * 30 == 30 * pixels) by (nonlinear_arith)
        requires
            pixels == width * height,
    ;
}

} // verus!
