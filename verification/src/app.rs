//! State and decisions of the graphical interface.

use crate::capture::Quality;
use crate::text;
use crate::text::{trimmed, uppercase};
use crate::webrtc_client::sender::ShareInfo;
use crate::webrtc_client::viewer::{is_pin, valid_pin};
use vstd::prelude::*;

verus! {

/// Side of the QR code on screen, in pixels.
pub const QR_SIDE: u32 = 220;

/// What the interface shows.
#[derive(Clone)]
pub struct UiState {
    pub share_url: Option<String>,
    pub share_pin: Option<String>,
    pub error: Option<String>,
    pub sharing: bool,
    pub view_code_input: String,
    pub view_pin_input: String,
    /// Preset for the next share, or of the one that is running.
    pub quality: Quality,
}

/// A share to watch.
pub struct WatchRequest {
    pub code: String,
    pub pin: String,
}

impl UiState {
    /// State at the start: not sharing, nothing entered, the default preset.
    pub fn new() -> (s: UiState)
        ensures
            s.wf(),
            s.share_url is None,
            s.share_pin is None,
            s.error is None,
            !s.sharing,
            s.view_code_input@ == Seq::<char>::empty(),
            s.view_pin_input@ == Seq::<char>::empty(),
            s.quality == Quality::High,
    {
        UiState {
            share_url: None,
            share_pin: None,
            error: None,
            sharing: false,
            view_code_input: String::new(),
            view_pin_input: String::new(),
            quality: Quality::default(),
        }
    }

    /// The URL and the PIN of a share come together.
    pub open spec fn wf(self) -> bool {
        self.share_url is Some <==> self.share_pin is Some
    }

    /// Everything but the two input fields and the preset.
    pub open spec fn same_share(self, other: UiState) -> bool {
        self.share_url == other.share_url && self.share_pin == other.share_pin && self.error
            == other.error && self.sharing == other.sharing
    }

    /// The two input fields.
    pub open spec fn same_inputs(self, other: UiState) -> bool {
        self.view_code_input == other.view_code_input && self.view_pin_input
            == other.view_pin_input
    }

    /// The state after something was typed.
    pub open spec fn entered(self, code: String, pin: String) -> UiState {
        UiState { view_code_input: code, view_pin_input: pin, ..self }
    }

    /// The state after a preset was picked.
    pub open spec fn picked(self, quality: Quality) -> UiState {
        UiState {
            quality: if self.sharing {
                self.quality
            } else {
                quality
            },
            ..self
        }
    }

    /// The state after the share button, and the preset to start a share with.
    pub open spec fn started(self) -> (UiState, Option<Quality>) {
        (
            UiState { sharing: true, ..self },
            if self.sharing {
                None
            } else {
                Some(self.quality)
            },
        )
    }

    /// The state once the session of the share exists.
    pub open spec fn created(self, info: ShareInfo) -> UiState {
        UiState { share_url: Some(info.viewer_url), share_pin: Some(info.pin), ..self }
    }

    /// The state after the share failed.
    pub open spec fn failed(self, message: String) -> UiState {
        UiState { error: Some(message), ..self }
    }

    /// Code and PIN of the share to watch, if the inputs can be used.
    pub open spec fn watched(self) -> Option<(Seq<char>, Seq<char>)> {
        let code = uppercase(trimmed(self.view_code_input@));
        let pin = trimmed(self.view_pin_input@);
        if watchable(code, pin) {
            Some((code, pin))
        } else {
            None
        }
    }

    /// Whether the session is still being created.
    pub open spec fn is_creating(self) -> bool {
        self.sharing && self.share_url is None && self.error is None
    }

    /// Takes over what was typed into the input fields.
    pub fn set_inputs(&mut self, code: String, pin: String)
        ensures
            *final(self) == old(self).entered(code, pin),
            old(self).wf() ==> final(self).wf(),
            final(self).view_code_input == code,
            final(self).view_pin_input == pin,
            final(self).same_share(*old(self)),
            final(self).quality == old(self).quality,
    {
        self.view_code_input = code;
        self.view_pin_input = pin;
    }

    /// Takes over the preset that was picked. During a share the preset is
    /// locked.
    pub fn pick_quality(&mut self, quality: Quality)
        ensures
            *final(self) == old(self).picked(quality),
            old(self).wf() ==> final(self).wf(),
            final(self).quality == if old(self).sharing {
                old(self).quality
            } else {
                quality
            },
            final(self).same_share(*old(self)),
            final(self).same_inputs(*old(self)),
    {
        if !self.sharing {
            self.quality = quality;
        }
    }

    /// The share button: the preset to start a share with, or `None` if one is
    /// running.
    pub fn start_share(&mut self) -> (start: Option<Quality>)
        ensures
            (*final(self), start) == old(self).started(),
            old(self).wf() ==> final(self).wf(),
            start == if old(self).sharing {
                None
            } else {
                Some(old(self).quality)
            },
            final(self).sharing,
            final(self).share_url == old(self).share_url,
            final(self).share_pin == old(self).share_pin,
            final(self).error == old(self).error,
            final(self).same_inputs(*old(self)),
            final(self).quality == old(self).quality,
    {
        if self.sharing {
            return None;
        }
        self.sharing = true;
        Some(self.quality)
    }

    /// The session of the share exists.
    pub fn share_created(&mut self, info: ShareInfo)
        ensures
            *final(self) == old(self).created(info),
            final(self).wf(),
            final(self).share_url == Some(info.viewer_url),
            final(self).share_pin == Some(info.pin),
            final(self).error == old(self).error,
            final(self).sharing == old(self).sharing,
            final(self).same_inputs(*old(self)),
            final(self).quality == old(self).quality,
    {
        self.share_url = Some(info.viewer_url);
        self.share_pin = Some(info.pin);
    }

    /// The share failed.
    pub fn share_failed(&mut self, message: String)
        ensures
            *final(self) == old(self).failed(message),
            old(self).wf() ==> final(self).wf(),
            final(self).error == Some(message),
            final(self).share_url == old(self).share_url,
            final(self).share_pin == old(self).share_pin,
            final(self).sharing == old(self).sharing,
            final(self).same_inputs(*old(self)),
            final(self).quality == old(self).quality,
    {
        self.error = Some(message);
    }

    /// Whether to say that the session is being created.
    pub fn creating(&self) -> (r: bool)
        ensures
            r == self.is_creating(),
            r == (self.sharing && self.share_url is None && self.error is None),
    {
        self.sharing && self.share_url.is_none() && self.error.is_none()
    }

    /// The URL whose QR code is missing on screen.
    pub open spec fn missing_qr(self, shown: Seq<char>) -> Option<Seq<char>> {
        match self.share_url {
            Some(url) => if url@ == shown {
                None
            } else {
                Some(url@)
            },
            None => None,
        }
    }

    /// The URL whose QR code is to be drawn, or `None` if the one shown will do.
    pub fn stale_qr(&self, shown: &str) -> (url: Option<&str>)
        ensures
            url is Some <==> self.missing_qr(shown@) is Some,
            url matches Some(u) ==> self.missing_qr(shown@) == Some(u@),
            url is Some <==> (self.share_url matches Some(u) && u@ != shown@),
            url matches Some(u) ==> (self.share_url matches Some(w) && u@ == w@),
    {
        match &self.share_url {
            Some(url) => if text::same(url.as_str(), shown) {
                None
            } else {
                Some(url.as_str())
            },
            None => None,
        }
    }

    /// The watch button: what to watch, if both inputs are usable. White space
    /// around them does not count, and the code is taken in upper case.
    pub fn watch(&self) -> (r: Option<WatchRequest>)
        ensures
            r is Some <==> self.watched() is Some,
            r matches Some(w) ==> self.watched() == Some((w.code@, w.pin@)),
            r is Some <==> watchable(
                uppercase(trimmed(self.view_code_input@)),
                trimmed(self.view_pin_input@),
            ),
            r matches Some(w) ==> {
                &&& w.code@ == uppercase(trimmed(self.view_code_input@))
                &&& w.pin@ == trimmed(self.view_pin_input@)
            },
    {
        let code = text::to_uppercase(text::trim(self.view_code_input.as_str()));
        let pin = text::trim(self.view_pin_input.as_str());
        watch_request(code, pin.to_string())
    }
}

/// Whether a code and a PIN can be used: any code at all, and six digits.
pub open spec fn watchable(code: Seq<char>, pin: Seq<char>) -> bool {
    code.len() > 0 && is_pin(pin)
}

/// What to watch for a prepared code and PIN, if they can be used.
pub fn watch_request(code: String, pin: String) -> (r: Option<WatchRequest>)
    ensures
        r is Some <==> watchable(code@, pin@),
        r matches Some(w) ==> w.code@ == code@ && w.pin@ == pin@,
{
    if code.as_str().unicode_len() == 0 || !valid_pin(pin.as_str()) {
        return None;
    }
    Some(WatchRequest { code, pin })
}

/// The QR code of a text, as `qrcode::QrCode::new` makes it: the number of
/// modules on a side, and of each module, row by row, whether it is dark. `None`
/// if the text does not fit into a QR code.
pub uninterp spec fn qr_modules(text: Seq<char>) -> Option<(nat, Seq<bool>)>;

/// Modules of white margin on each side.
pub open spec fn quiet_zone() -> int {
    4
}

/// Pixels on a side of one module: as few as it takes for the whole code with its
/// margin to be `min_side` pixels wide, but at least one.
pub open spec fn module_side(modules: nat, min_side: u32) -> int {
    let total = modules + 2 * quiet_zone();
    let side = (min_side + total - 1) / total;
    if side < 1 {
        1
    } else {
        side
    }
}

/// Pixels on a side of the code with its margin.
pub open spec fn picture_side(modules: nat, min_side: u32) -> int {
    (modules + 2 * quiet_zone()) * module_side(modules, min_side)
}

/// Whether the module in column `x` of row `y`, counted from the corner of the
/// margin, is dark.
pub open spec fn is_dark(modules: nat, dark: Seq<bool>, x: int, y: int) -> bool {
    let cx = x - quiet_zone();
    let cy = y - quiet_zone();
    0 <= cx < modules && 0 <= cy < modules && dark[cy * modules + cx]
}

/// The code as a grey picture, one byte per pixel: black where a module is dark,
/// white elsewhere.
pub open spec fn qr_luma(modules: nat, dark: Seq<bool>, min_side: u32) -> Seq<u8> {
    let side = picture_side(modules, min_side);
    let unit = module_side(modules, min_side);
    Seq::new(
        (side * side) as nat,
        |i: int|
            if is_dark(modules, dark, i % side / unit, i / side / unit) {
                0u8
            } else {
                255u8
            },
    )
}

/// Calls `qrcode::QrCode::new` and draws the code with `Renderer::min_dimensions`
/// and `Renderer::build` of the same crate.
///
/// The contract names the modules, which depend on the text alone, and says that
/// there are 21 to 177 of them on a side. Of the drawing it says which pixel is
/// black and which is white.
#[verifier::external_body]
fn qr_picture(url: &str, min_side: u32) -> (r: Option<(u32, u32, Vec<u8>)>)
    requires
        min_side <= 0x8000,
    ensures
        r is Some <==> qr_modules(url@) is Some,
        r matches Some((w, h, luma)) ==> (qr_modules(url@) matches Some((modules, dark)) && {
            &&& 21 <= modules <= 177
            &&& dark.len() == modules * modules
            &&& w == picture_side(modules, min_side)
            &&& h == picture_side(modules, min_side)
            &&& luma@ == qr_luma(modules, dark, min_side)
        }),
{
    let code = match qrcode::QrCode::new(url) {
        Ok(code) => code,
        Err(_) => return None,
    };
    let img = code.render::<image::Luma<u8>>().min_dimensions(min_side, min_side).build();
    Some((img.width(), img.height(), img.into_raw()))
}

/// A picture in RGBA, four bytes per pixel.
pub struct Picture {
    pub width: u32,
    pub height: u32,
    pub rgba: Vec<u8>,
}

/// A grey picture in RGBA: the grey value for each colour, and opaque.
pub open spec fn grey_rgba(luma: Seq<u8>) -> Seq<u8> {
    Seq::new(
        4 * luma.len(),
        |i: int|
            if i % 4 == 3 {
                255u8
            } else {
                luma[i / 4]
            },
    )
}

/// Turns a grey picture into RGBA.
pub fn luma_to_rgba(luma: &[u8]) -> (rgba: Vec<u8>)
    ensures
        rgba@ == grey_rgba(luma@),
{
    let mut rgba: Vec<u8> = Vec::new();
    let mut i: usize = 0;
    assert(grey_rgba(luma@).take(0) =~= rgba@);
    while i < luma.len()
        invariant
            i <= luma@.len(),
            rgba@ == grey_rgba(luma@).take(4 * i),
        decreases luma@.len() - i,
    {
        let v = luma[i];
        rgba.push(v);
        rgba.push(v);
        rgba.push(v);
        rgba.push(255);
        assert(rgba@ =~= grey_rgba(luma@).take(4 * (i + 1)));
        i += 1;
    }
    assert(grey_rgba(luma@).take(4 * i) =~= grey_rgba(luma@));
    rgba
}

/// Side and RGBA pixels of the picture of a code.
pub open spec fn drawn_code(modules: nat, dark: Seq<bool>) -> (int, Seq<u8>) {
    (picture_side(modules, QR_SIDE), grey_rgba(qr_luma(modules, dark, QR_SIDE)))
}

/// Draws the QR code of a share's URL. `None` if the URL is too long for one.
pub fn render_qr(url: &str) -> (p: Option<Picture>)
    ensures
        p matches Some(picture) ==> (qr_modules(url@) matches Some((modules, dark)) && drawn_code(
            modules,
            dark,
        ) == (picture.width as int, picture.rgba@)),
        p is Some <==> qr_modules(url@) is Some,
        p matches Some(picture) ==> (qr_modules(url@) matches Some((modules, dark)) && {
            &&& picture.width == picture_side(modules, QR_SIDE)
            &&& picture.height == picture_side(modules, QR_SIDE)
            &&& picture.rgba@ == grey_rgba(qr_luma(modules, dark, QR_SIDE))
        }),
{
    match qr_picture(url, QR_SIDE) {
        Some((width, height, luma)) => {
            let rgba = luma_to_rgba(luma.as_slice());
            Some(Picture { width, height, rgba })
        },
        None => None,
    }
}

/// A code is drawn at least as large as asked for, and less than one pixel per
/// module larger.
pub proof fn law_picture_is_as_small_as_possible(modules: nat, min_side: u32)
    ensures
        picture_side(modules, min_side) >= min_side,
        min_side > 0 ==> picture_side(modules, min_side) < min_side + modules + 2 * quiet_zone(),
{
    let total = modules + 2 * quiet_zone();
    let unit = (min_side + total - 1) / total;
    vstd::arithmetic::div_mod::lemma_fundamental_div_mod(min_side + total - 1, total);
    assert(total * unit <= min_side + total - 1 < total * unit + total);
    if min_side > 0 {
        assert(unit >= 1) by {
            vstd::arithmetic::div_mod::lemma_div_is_ordered(total, min_side + total - 1, total);
            vstd::arithmetic::div_mod::lemma_div_by_self(total);
        }
    }
}

/// The margin of a drawn code is white.
pub proof fn law_margin_is_white(modules: nat, dark: Seq<bool>, min_side: u32, px: int, py: int)
    requires
        0 <= px < picture_side(modules, min_side),
        0 <= py < picture_side(modules, min_side),
        px < quiet_zone() * module_side(modules, min_side) || py < quiet_zone() * module_side(
            modules,
            min_side,
        ),
    ensures
        qr_luma(modules, dark, min_side)[py * picture_side(modules, min_side) + px] == 255,
{
    let side = picture_side(modules, min_side);
    let unit = module_side(modules, min_side);
    let i = py * side + px;
    vstd::arithmetic::div_mod::lemma_fundamental_div_mod_converse(i, side, py, px);
    assert(0 <= i < side * side) by (nonlinear_arith)
        requires
            i == py * side + px,
            0 <= px < side,
            0 <= py < side,
    ;
    if px < quiet_zone() * unit {
        vstd::arithmetic::div_mod::lemma_multiply_divide_lt(px, unit, quiet_zone());
    } else {
        vstd::arithmetic::div_mod::lemma_multiply_divide_lt(py, unit, quiet_zone());
    }
}

/// A share can be watched with any code at all and a PIN of six digits.
pub proof fn law_watchable(code: Seq<char>, pin: Seq<char>)
    ensures
        watchable(code, pin) <==> code.len() != 0 && pin.len() == 6 && forall|i: int|
            0 <= i < 6 ==> '0' <= #[trigger] pin[i] <= '9',
{
    if watchable(code, pin) {
        assert forall|i: int| 0 <= i < 6 implies '0' <= #[trigger] pin[i] <= '9' by {
            assert(crate::text::is_digit(pin[i]));
        }
    }
}

/// Each grey value becomes one opaque pixel of that grey.
pub proof fn law_grey_pixel(luma: Seq<u8>, i: int)
    requires
        0 <= i < luma.len(),
    ensures
        grey_rgba(luma).len() == 4 * luma.len(),
        grey_rgba(luma)[4 * i] == luma[i],
        grey_rgba(luma)[4 * i + 1] == luma[i],
        grey_rgba(luma)[4 * i + 2] == luma[i],
        grey_rgba(luma)[4 * i + 3] == 255,
{
}

/// Every pixel of a module has the module's colour: with `unit` pixels on a side,
/// the module in column `x` of row `y` covers the square that starts four modules
/// of margin further in, black if it is dark and white if not.
pub proof fn law_module_is_drawn(
    modules: nat,
    dark: Seq<bool>,
    min_side: u32,
    x: int,
    y: int,
    dx: int,
    dy: int,
)
    requires
        0 <= x < modules,
        0 <= y < modules,
        0 <= dx < module_side(modules, min_side),
        0 <= dy < module_side(modules, min_side),
    ensures
        ({
            let unit = module_side(modules, min_side);
            let side = (modules + 8) * unit;
            let px = (x + 4) * unit + dx;
            let py = (y + 4) * unit + dy;
            &&& picture_side(modules, min_side) == side
            &&& qr_luma(modules, dark, min_side).len() == side * side
            &&& qr_luma(modules, dark, min_side)[py * side + px] == if dark[y * modules + x] {
                0u8
            } else {
                255u8
            }
        }),
{
    let unit = module_side(modules, min_side);
    let side = (modules + 8) * unit;
    let px = (x + 4) * unit + dx;
    let py = (y + 4) * unit + dy;
    assert(0 <= px < side && 0 <= py < side) by (nonlinear_arith)
        requires
            px == (x + 4) * unit + dx,
            py == (y + 4) * unit + dy,
            side == (modules + 8) * unit,
            0 <= x < modules,
            0 <= y < modules,
            0 <= dx < unit,
            0 <= dy < unit,
    ;
    assert(0 <= py * side + px < side * side) by (nonlinear_arith)
        requires
            0 <= px < side,
            0 <= py < side,
    ;
    vstd::arithmetic::div_mod::lemma_fundamental_div_mod_converse(py * side + px, side, py, px);
    vstd::arithmetic::div_mod::lemma_fundamental_div_mod_converse(px, unit, x + 4, dx);
    vstd::arithmetic::div_mod::lemma_fundamental_div_mod_converse(py, unit, y + 4, dy);
}

/// The preset can be changed until a share starts, which takes the one picked last,
/// and from then on it is locked. A share that is running is not started again.
pub proof fn law_preset_is_fixed_by_the_share(s: UiState, first: Quality, later: Quality)
    requires
        !s.sharing,
    ensures
        s.picked(first).quality == first,
        s.picked(first).started().1 == Some(first),
        s.picked(first).started().0.sharing,
        s.picked(first).started().0.picked(later) == s.picked(first).started().0,
        s.started().0.started().1 is None,
        s.started().0.started().0 == s.started().0,
        s.picked(first).same_share(s),
        s.picked(first).same_inputs(s),
        s.started().0.same_inputs(s),
        s.started().0.quality == s.quality,
        s.started().0.share_url == s.share_url,
        s.started().0.share_pin == s.share_pin,
        s.started().0.error == s.error,
{
}

/// What a share reports is shown as it is, and nothing else changes with it.
pub proof fn law_reports_are_shown(s: UiState, info: ShareInfo, message: String)
    ensures
        s.created(info).share_url == Some(info.viewer_url),
        s.created(info).share_pin == Some(info.pin),
        s.created(info).error == s.error,
        s.created(info).sharing == s.sharing,
        s.created(info).quality == s.quality,
        s.created(info).same_inputs(s),
        s.failed(message).error == Some(message),
        s.failed(message).share_url == s.share_url,
        s.failed(message).share_pin == s.share_pin,
        s.failed(message).sharing == s.sharing,
        s.failed(message).quality == s.quality,
        s.failed(message).same_inputs(s),
{
}

/// A session is being created from the start of the share until it exists or has
/// failed.
pub proof fn law_creating_ends_with_a_report(s: UiState, info: ShareInfo, message: String)
    requires
        !s.sharing,
        s.share_url is None,
        s.error is None,
    ensures
        !s.is_creating(),
        s.started().0.is_creating(),
        !s.started().0.created(info).is_creating(),
        !s.started().0.failed(message).is_creating(),
{
}

/// What is typed is what is watched, whatever else the interface shows: the code
/// without margins in upper case, and the PIN without margins.
pub proof fn law_inputs_are_watched(s: UiState, code: String, pin: String)
    ensures
        ({
            let c = uppercase(trimmed(code@));
            let p = trimmed(pin@);
            let usable = c.len() > 0 && p.len() == 6 && forall|i: int|
                0 <= i < 6 ==> '0' <= #[trigger] p[i] <= '9';
            &&& usable ==> s.entered(code, pin).watched() == Some((c, p))
            &&& !usable ==> s.entered(code, pin).watched() is None
        }),
        s.entered(code, pin).same_share(s),
        s.entered(code, pin).quality == s.quality,
{
    law_watchable(uppercase(trimmed(code@)), trimmed(pin@));
}

/// A code is drawn at least 220 pixels wide, and every pixel of a module is opaque
/// and black if the module is dark, white if not.
pub proof fn law_code_is_drawn_in_black_and_white(
    modules: nat,
    dark: Seq<bool>,
    unit: int,
    x: int,
    y: int,
    dx: int,
    dy: int,
    c: int,
)
    requires
        (modules + 8) * unit >= 220,
        (modules + 8) * (unit - 1) < 220,
        0 <= x < modules,
        0 <= y < modules,
        0 <= dx < unit,
        0 <= dy < unit,
        0 <= c < 3,
    ensures
        ({
            let (side, rgba) = drawn_code(modules, dark);
            let at = 4 * (((y + 4) * unit + dy) * side + (x + 4) * unit + dx);
            &&& side == (modules + 8) * unit
            &&& rgba.len() == 4 * side * side
            &&& rgba[at + c] == if dark[y * modules + x] {
                0u8
            } else {
                255u8
            }
            &&& rgba[at + 3] == 255
        }),
{
    let total = modules + 8;
    let found = module_side(modules, QR_SIDE);
    law_picture_is_as_small_as_possible(modules, QR_SIDE);
    assert(found == unit) by (nonlinear_arith)
        requires
            total > 0,
            total * unit >= 220,
            total * (unit - 1) < 220,
            total * found >= 220,
            total * found < 220 + total,
    ;
    law_module_is_drawn(modules, dark, QR_SIDE, x, y, dx, dy);
    let side = total * unit;
    let px = (x + 4) * unit + dx;
    let py = (y + 4) * unit + dy;
    assert(0 <= px < side && 0 <= py < side) by (nonlinear_arith)
        requires
            px == (x + 4) * unit + dx,
            py == (y + 4) * unit + dy,
            side == total * unit,
            total == modules + 8,
            0 <= x < modules,
            0 <= y < modules,
            0 <= dx < unit,
            0 <= dy < unit,
    ;
    assert(0 <= py * side + px < side * side) by (nonlinear_arith)
        requires
            0 <= px < side,
            0 <= py < side,
    ;
    assert(4 * side * side == 4 * (side * side)) by (nonlinear_arith);
    law_grey_pixel(qr_luma(modules, dark, QR_SIDE), py * side + px);
}

/// The code of a new share is drawn once: it is missing until it is shown, and there
/// is none to draw without a share.
pub proof fn law_code_is_drawn_once(s: UiState, info: ShareInfo, shown: Seq<char>)
    ensures
        s.created(info).missing_qr(info.viewer_url@) is None,
        shown != info.viewer_url@ ==> s.created(info).missing_qr(shown) == Some(info.viewer_url@),
        s.share_url is None ==> s.missing_qr(shown) is None,
{
}

} // verus!
