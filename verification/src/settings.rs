//! The application's settings: the persisted record read from the
//! configuration file, the derived runtime settings, and the hex form in
//! which colors are persisted.

use vstd::prelude::*;

use crate::hotkey::KeyBindings;
use crate::image::{COLOR_PICKER_SIZE, Image, PngError, load_png, png_decode_of, premultiplied, premultiply_alpha, rectangle_center};
use crate::numeric::fps_to_tick_interval;

verus! {

pub const DEFAULT_OFFSET_X: i32 = 0;

pub const DEFAULT_OFFSET_Y: i32 = 0;

pub const DEFAULT_SIZE: u32 = 16;

pub const DEFAULT_FPS: u32 = 60;

pub const DEFAULT_MONITOR: u32 = 1;

/// 70% alpha red.
pub const DEFAULT_COLOR: u32 = 0xB2FF0000;

/// A position on the screen, in physical pixels.
#[derive(Clone, Copy, Debug, PartialEq, Eq, Structural)]
pub struct PixelPosition {
    pub x: i32,
    pub y: i32,
}

/// An extent on the screen, in physical pixels.
#[derive(Clone, Copy, Debug, PartialEq, Eq, Structural)]
pub struct PixelSize {
    pub width: u32,
    pub height: u32,
}

/// What the overlay window shows.
#[derive(Clone, Copy, Debug, PartialEq, Eq, Structural)]
pub enum RenderMode {
    /// A user-loaded image.
    Image,
    /// The generated crosshair.
    Crosshair,
    /// The color picker.
    ColorPicker,
}

impl RenderMode {
    /// The mode an image choice implies: show the image when there is one,
    /// else the generated crosshair.
    pub fn from_image(image: &Option<Image>) -> (r: RenderMode)
        ensures
            r == (if image is Some {
                RenderMode::Image
            } else {
                RenderMode::Crosshair
            }),
    {
        if image.is_some() {
            RenderMode::Image
        } else {
            RenderMode::Crosshair
        }
    }
}

/// The record persisted in the configuration file. The window offsets and
/// dimensions are freely editable; the remaining fields are reached through
/// the methods of [`Settings`].
pub struct PersistedSettings {
    pub window_dx: i32,
    pub window_dy: i32,
    pub window_width: u32,
    pub window_height: u32,
    /// The persisted, not-premultiplied crosshair color.
    pub color: u32,
    /// The polling rate, in frames per second.
    pub fps: u32,
    /// The configured image path, if any.
    pub image_path: Option<String>,
    pub key_bindings: KeyBindings,
    /// 1-indexed monitor to render the overlay to.
    pub monitor: u32,
}

impl PersistedSettings {
    /// Derive the runtime settings from this record and the image the caller
    /// loaded from the configured path (if any). The monitor index must be
    /// 1-indexed and the polling rate positive, as `Default` and the
    /// validated configuration guarantee.
    pub fn into_settings(self, image: Option<Image>) -> (r: Settings)
        requires
            self.monitor >= 1,
            self.fps >= 1,
        ensures
            r.wf(),
            r.persisted == self,
            r.color == premultiplied(self.color),
            r.image == image,
            r.tick_interval_millis == spec_tick_interval_millis(self.fps),
            r.monitor_index == self.monitor - 1,
            r.desired_window_position == (PixelPosition { x: 0, y: 0 }),
            r.desired_window_size == (PixelSize { width: 0, height: 0 }),
            r.render_mode == (if image is Some {
                RenderMode::Image
            } else {
                RenderMode::Crosshair
            }),
    {
        let color = premultiply_alpha(self.color);
        let tick_interval_millis = fps_to_tick_interval(self.fps);
        let monitor_index = (self.monitor - 1) as usize;
        let render_mode = RenderMode::from_image(&image);
        Settings {
            persisted: self,
            color,
            image,
            tick_interval_millis,
            monitor_index,
            desired_window_position: PixelPosition { x: 0, y: 0 },
            desired_window_size: PixelSize { width: 0, height: 0 },
            render_mode,
        }
    }
}

impl Default for PersistedSettings {
    /// The default configuration: a small red crosshair on the first
    /// monitor, polled at 60 frames per second, with the default bindings.
    fn default() -> (r: Self)
        ensures
            r.window_dx == DEFAULT_OFFSET_X,
            r.window_dy == DEFAULT_OFFSET_Y,
            r.window_width == DEFAULT_SIZE,
            r.window_height == DEFAULT_SIZE,
            r.color == DEFAULT_COLOR,
            r.fps == DEFAULT_FPS,
            r.image_path is None,
            r.monitor == DEFAULT_MONITOR,
    {
        PersistedSettings {
            window_dx: DEFAULT_OFFSET_X,
            window_dy: DEFAULT_OFFSET_Y,
            window_width: DEFAULT_SIZE,
            window_height: DEFAULT_SIZE,
            color: DEFAULT_COLOR,
            fps: DEFAULT_FPS,
            image_path: None,
            key_bindings: Default::default(),
            monitor: DEFAULT_MONITOR,
        }
    }
}

/// The tick interval that a polling rate implies: the ceiling of `1000/fps`
/// milliseconds.
pub open spec fn spec_tick_interval_millis(fps: u32) -> u64 {
    if 1000int % (fps as int) == 0 {
        (1000int / (fps as int)) as u64
    } else {
        (1000int / (fps as int) + 1) as u64
    }
}

/// The persisted settings plus the values derived from them once at load
/// time, and the window state the application keeps in sync.
pub struct Settings {
    pub persisted: PersistedSettings,
    /// The crosshair color with premultiplied alpha, ready to draw.
    pub color: u32,
    /// The loaded image, if any.
    pub image: Option<Image>,
    /// Milliseconds between hotkey polls.
    pub tick_interval_millis: u64,
    /// 0-indexed monitor to render the overlay to.
    pub monitor_index: usize,
    pub desired_window_position: PixelPosition,
    pub desired_window_size: PixelSize,
    pub render_mode: RenderMode,
}

impl Settings {
    /// Image mode is only ever entered with an image in hand.
    pub open spec fn wf(self) -> bool {
        self.render_mode == RenderMode::Image ==> self.image is Some
    }

    /// The window size the current render mode asks for: the image's size in
    /// image mode, the configured size in crosshair mode, and the picker box
    /// in color-picker mode.
    pub open spec fn spec_size(self) -> PixelSize {
        match self.render_mode {
            RenderMode::Image => PixelSize {
                width: self.image->Some_0.width,
                height: self.image->Some_0.height,
            },
            RenderMode::Crosshair => PixelSize {
                width: self.persisted.window_width,
                height: self.persisted.window_height,
            },
            RenderMode::ColorPicker => PixelSize {
                width: COLOR_PICKER_SIZE as u32,
                height: COLOR_PICKER_SIZE as u32,
            },
        }
    }

    /// The window size the current render mode asks for.
    pub fn size(&self) -> (r: PixelSize)
        requires
            self.wf(),
        ensures
            r == self.spec_size(),
    {
        match self.render_mode {
            RenderMode::Image => {
                let image = self.image.as_ref().unwrap();
                PixelSize { width: image.width, height: image.height }
            },
            RenderMode::Crosshair => PixelSize {
                width: self.persisted.window_width,
                height: self.persisted.window_height,
            },
            RenderMode::ColorPicker => PixelSize {
                width: COLOR_PICKER_SIZE as u32,
                height: COLOR_PICKER_SIZE as u32,
            },
        }
    }

    /// The loaded image, if any.
    pub fn image(&self) -> (r: Option<&Image>)
        ensures
            r is Some <==> self.image is Some,
            r is Some ==> *r->Some_0 == self.image->Some_0,
    {
        self.image.as_ref()
    }

    /// Toggle color picker mode on or off. Returns `true` if color picker
    /// mode is now enabled, `false` otherwise; leaving picker mode falls
    /// back to image or crosshair mode by whether an image is loaded.
    pub fn toggle_pick_color(&mut self) -> (enabled: bool)
        requires
            old(self).wf(),
        ensures
            final(self).wf(),
            final(self).render_mode == (if old(self).render_mode == RenderMode::ColorPicker {
                if old(self).image is Some {
                    RenderMode::Image
                } else {
                    RenderMode::Crosshair
                }
            } else {
                RenderMode::ColorPicker
            }),
            enabled == (final(self).render_mode == RenderMode::ColorPicker),
            final(self).persisted == old(self).persisted,
            final(self).color == old(self).color,
            final(self).image == old(self).image,
            final(self).tick_interval_millis == old(self).tick_interval_millis,
            final(self).monitor_index == old(self).monitor_index,
            final(self).desired_window_position == old(self).desired_window_position,
            final(self).desired_window_size == old(self).desired_window_size,
    {
        let (render_mode, enabled) = if self.render_mode == RenderMode::ColorPicker {
            (RenderMode::from_image(&self.image), false)
        } else {
            (RenderMode::ColorPicker, true)
        };
        self.render_mode = render_mode;
        enabled
    }

    /// Enter or leave color picker mode outright.
    pub fn set_pick_color(&mut self, pick_color: bool)
        requires
            old(self).wf(),
        ensures
            final(self).wf(),
            final(self).render_mode == (if pick_color {
                RenderMode::ColorPicker
            } else {
                if old(self).image is Some {
                    RenderMode::Image
                } else {
                    RenderMode::Crosshair
                }
            }),
            final(self).persisted == old(self).persisted,
            final(self).color == old(self).color,
            final(self).image == old(self).image,
            final(self).tick_interval_millis == old(self).tick_interval_millis,
            final(self).monitor_index == old(self).monitor_index,
            final(self).desired_window_position == old(self).desired_window_position,
            final(self).desired_window_size == old(self).desired_window_size,
    {
        self.render_mode = if pick_color {
            RenderMode::ColorPicker
        } else {
            RenderMode::from_image(&self.image)
        };
    }

    /// Is color picker mode enabled right now?
    pub fn get_pick_color(&self) -> (r: bool)
        ensures
            r == (self.render_mode == RenderMode::ColorPicker),
    {
        self.render_mode == RenderMode::ColorPicker
    }

    /// Set the crosshair color. The provided color must not have
    /// premultiplied alpha yet; it is persisted as given and premultiplied
    /// for drawing. Any loaded image is dropped and crosshair mode entered.
    pub fn set_color(&mut self, color: u32)
        ensures
            final(self).wf(),
            final(self).persisted.color == color,
            final(self).color == premultiplied(color),
            final(self).image is None,
            final(self).persisted.image_path is None,
            final(self).render_mode == RenderMode::Crosshair,
            final(self).persisted.window_dx == old(self).persisted.window_dx,
            final(self).persisted.window_dy == old(self).persisted.window_dy,
            final(self).persisted.window_width == old(self).persisted.window_width,
            final(self).persisted.window_height == old(self).persisted.window_height,
            final(self).persisted.fps == old(self).persisted.fps,
            final(self).persisted.key_bindings == old(self).persisted.key_bindings,
            final(self).persisted.monitor == old(self).persisted.monitor,
            final(self).tick_interval_millis == old(self).tick_interval_millis,
            final(self).monitor_index == old(self).monitor_index,
            final(self).desired_window_position == old(self).desired_window_position,
            final(self).desired_window_size == old(self).desired_window_size,
    {
        self.persisted.color = color;
        self.color = premultiply_alpha(color);
        self.image = None;
        self.persisted.image_path = None;
        self.render_mode = RenderMode::Crosshair;
    }

    /// The crosshair can only be scaled while no image overrides its size.
    pub fn is_scalable(&self) -> (r: bool)
        ensures
            r == (self.image is None),
    {
        self.image.is_none()
    }

    /// Reset the settings the user can edit in the application; anything
    /// edited only by hand in the configuration file sticks.
    pub fn reset(&mut self)
        ensures
            final(self).wf(),
            final(self).persisted.window_dx == DEFAULT_OFFSET_X,
            final(self).persisted.window_dy == DEFAULT_OFFSET_Y,
            final(self).persisted.window_width == DEFAULT_SIZE,
            final(self).persisted.window_height == DEFAULT_SIZE,
            final(self).persisted.color == DEFAULT_COLOR,
            final(self).color == premultiplied(DEFAULT_COLOR),
            final(self).persisted.image_path is None,
            final(self).image is None,
            final(self).render_mode == (if old(self).render_mode == RenderMode::Image {
                RenderMode::Crosshair
            } else {
                old(self).render_mode
            }),
            final(self).persisted.fps == old(self).persisted.fps,
            final(self).persisted.key_bindings == old(self).persisted.key_bindings,
            final(self).persisted.monitor == old(self).persisted.monitor,
            final(self).tick_interval_millis == old(self).tick_interval_millis,
            final(self).monitor_index == old(self).monitor_index,
            final(self).desired_window_position == old(self).desired_window_position,
            final(self).desired_window_size == old(self).desired_window_size,
    {
        self.persisted.window_dx = DEFAULT_OFFSET_X;
        self.persisted.window_dy = DEFAULT_OFFSET_Y;
        self.persisted.window_width = DEFAULT_SIZE;
        self.persisted.window_height = DEFAULT_SIZE;
        self.persisted.color = DEFAULT_COLOR;
        self.color = premultiply_alpha(DEFAULT_COLOR);
        self.persisted.image_path = None;
        if self.render_mode == RenderMode::Image {
            self.render_mode = RenderMode::Crosshair;
        }
        self.image = None;
    }

    /// Load a new PNG at runtime from its file path and raw bytes. On
    /// success the image is installed and image mode entered; on failure the
    /// settings are unchanged and the decoder's error is handed back.
    pub fn load_png(&mut self, path: String, bytes: &[u8]) -> (r: Result<(), PngError>)
        requires
            old(self).wf(),
        ensures
            final(self).wf(),
            r is Ok <==> (png_decode_of(bytes@) is Some && png_decode_of(bytes@)->Some_0.2),
            r is Ok ==> {
                &&& final(self).image is Some
                &&& final(self).persisted.image_path == Some(path)
                &&& final(self).render_mode == RenderMode::Image
            },
            r is Err ==> *final(self) == *old(self),
            final(self).color == old(self).color,
            final(self).tick_interval_millis == old(self).tick_interval_millis,
            final(self).monitor_index == old(self).monitor_index,
    {
        let image = match load_png(bytes) {
            Ok(image) => image,
            Err(e) => {
                return Err(e);
            },
        };
        self.persisted.image_path = Some(path);
        self.image = Some(image);
        self.render_mode = RenderMode::Image;
        Ok(())
    }

    /// The top-left corner that centers the overlay window on the monitor
    /// with the given position and size, shifted by the configured offsets.
    pub fn compute_window_coordinates(
        &self,
        monitor_position: PixelPosition,
        monitor_size: PixelSize,
    ) -> (r: PixelPosition)
        requires
            self.wf(),
            monitor_size.width <= i32::MAX,
            monitor_size.height <= i32::MAX,
            self.spec_size().width <= i32::MAX,
            self.spec_size().height <= i32::MAX,
            i32::MIN <= monitor_position.x + (monitor_size.width as int) / 2 <= i32::MAX,
            i32::MIN <= monitor_position.y + (monitor_size.height as int) / 2 <= i32::MAX,
            i32::MIN <= monitor_position.x + (monitor_size.width as int) / 2 - (
            self.spec_size().width as int) / 2 <= i32::MAX,
            i32::MIN <= monitor_position.y + (monitor_size.height as int) / 2 - (
            self.spec_size().height as int) / 2 <= i32::MAX,
            i32::MIN <= monitor_position.x + (monitor_size.width as int) / 2 - (
            self.spec_size().width as int) / 2 + self.persisted.window_dx <= i32::MAX,
            i32::MIN <= monitor_position.y + (monitor_size.height as int) / 2 - (
            self.spec_size().height as int) / 2 + self.persisted.window_dy <= i32::MAX,
        ensures
            r.x == monitor_position.x + (monitor_size.width as int) / 2 - (
            self.spec_size().width as int) / 2 + self.persisted.window_dx,
            r.y == monitor_position.y + (monitor_size.height as int) / 2 - (
            self.spec_size().height as int) / 2 + self.persisted.window_dy,
    {
        let window_size = self.size();
        let monitor_width = monitor_size.width as i32;
        let monitor_height = monitor_size.height as i32;
        let window_width = window_size.width as i32;
        let window_height = window_size.height as i32;

        let (monitor_center_x, monitor_center_y) = rectangle_center(
            monitor_position.x,
            monitor_position.y,
            monitor_width,
            monitor_height,
        );

        let window_x = monitor_center_x - window_width / 2 + self.persisted.window_dx;
        let window_y = monitor_center_y - window_height / 2 + self.persisted.window_dy;
        PixelPosition { x: window_x, y: window_y }
    }
}

impl Default for Settings {
    /// The settings derived from the default persisted record, with no
    /// image loaded.
    fn default() -> (r: Self)
        ensures
            r.wf(),
            r.persisted.color == DEFAULT_COLOR,
            r.color == premultiplied(DEFAULT_COLOR),
            r.image is None,
            r.tick_interval_millis == spec_tick_interval_millis(DEFAULT_FPS),
            r.monitor_index == DEFAULT_MONITOR - 1,
            r.render_mode == RenderMode::Crosshair,
    {
        let persisted: PersistedSettings = Default::default();
        persisted.into_settings(None)
    }
}

// ---------------------------------------------------------------------------
// The hex form colors are persisted in
// ---------------------------------------------------------------------------

/// The ASCII encoding of one hex digit, uppercase.
pub open spec fn hex_digit_ascii(d: u8) -> u8 {
    if d < 10 {
        (0x30 + d) as u8
    } else {
        (0x41 + (d - 10)) as u8
    }
}

/// The eight-digit uppercase hex encoding of a packed color.
pub open spec fn hex_encoding(c: u32) -> Seq<u8> {
    seq![
        hex_digit_ascii(((c / 0x1000_0000) % 16) as u8),
        hex_digit_ascii(((c / 0x100_0000) % 16) as u8),
        hex_digit_ascii(((c / 0x10_0000) % 16) as u8),
        hex_digit_ascii(((c / 0x1_0000) % 16) as u8),
        hex_digit_ascii(((c / 0x1000) % 16) as u8),
        hex_digit_ascii(((c / 0x100) % 16) as u8),
        hex_digit_ascii(((c / 0x10) % 16) as u8),
        hex_digit_ascii((c % 16) as u8),
    ]
}

/// The value of one ASCII hex digit, either case; anything else is rejected.
pub open spec fn hex_digit_value(b: u8) -> Option<u8> {
    if 0x30 <= b <= 0x39 {
        Some((b - 0x30) as u8)
    } else if 0x41 <= b <= 0x46 {
        Some((b - 0x41 + 10) as u8)
    } else if 0x61 <= b <= 0x66 {
        Some((b - 0x61 + 10) as u8)
    } else {
        None
    }
}

/// The value of a string of hex digits, unbounded; `None` when any byte is
/// not a hex digit.
pub open spec fn hex_value(s: Seq<u8>) -> Option<int>
    decreases s.len(),
{
    if s.len() == 0 {
        Some(0int)
    } else {
        match (hex_value(s.drop_last()), hex_digit_value(s.last())) {
            (Some(v), Some(d)) => Some(16 * v + d),
            _ => None,
        }
    }
}

/// What parsing a persisted color accepts: one or more hex digits whose
/// value fits a `u32`.
pub open spec fn parsed_hex(s: Seq<u8>) -> Option<u32> {
    if s.len() == 0 {
        None
    } else {
        match hex_value(s) {
            Some(v) => if v <= u32::MAX {
                Some(v as u32)
            } else {
                None
            },
            None => None,
        }
    }
}

/// One hex digit, as an uppercase ASCII byte.
fn hex_digit(d: u8) -> (r: u8)
    requires
        d < 16,
    ensures
        r == hex_digit_ascii(d),
{
    if d < 10 {
        0x30 + d
    } else {
        0x41 + (d - 10)
    }
}

/// Encode a packed ARGB color as the eight uppercase hex digits it is
/// persisted as (colors are stored readably, not as a decimal word).
pub fn format_argb_hex(color: u32) -> (r: Vec<u8>)
    ensures
        r@ == hex_encoding(color),
{
    let mut out: Vec<u8> = Vec::new();
    out.push(hex_digit(((color / 0x1000_0000) % 16) as u8));
    out.push(hex_digit(((color / 0x100_0000) % 16) as u8));
    out.push(hex_digit(((color / 0x10_0000) % 16) as u8));
    out.push(hex_digit(((color / 0x1_0000) % 16) as u8));
    out.push(hex_digit(((color / 0x1000) % 16) as u8));
    out.push(hex_digit(((color / 0x100) % 16) as u8));
    out.push(hex_digit(((color / 0x10) % 16) as u8));
    out.push(hex_digit((color % 16) as u8));
    proof {
        assert(out@ =~= hex_encoding(color));
    }
    out
}

/// A parsed value is never negative.
proof fn lemma_hex_value_nonneg(s: Seq<u8>)
    requires
        hex_value(s) is Some,
    ensures
        hex_value(s)->Some_0 >= 0,
    decreases s.len(),
{
    if s.len() > 0 {
        lemma_hex_value_nonneg(s.drop_last());
    }
}

/// Every digit appended keeps the value growing: a prefix never exceeds the
/// whole string's value.
proof fn lemma_hex_value_prefix(s: Seq<u8>, n: int)
    requires
        0 <= n <= s.len(),
        hex_value(s) is Some,
    ensures
        hex_value(s.subrange(0, n)) is Some,
        hex_value(s.subrange(0, n))->Some_0 <= hex_value(s)->Some_0,
    decreases s.len() - n,
{
    if n == s.len() {
        assert(s.subrange(0, n) =~= s);
    } else {
        let t = s.subrange(0, n + 1);
        assert(t.drop_last() =~= s.subrange(0, n));
        lemma_hex_value_prefix(s, n + 1);
        assert(hex_value(t) is Some);
        lemma_hex_value_nonneg(s.subrange(0, n));
    }
}

/// A non-digit anywhere makes the whole string unparsable.
proof fn lemma_hex_value_bad_digit(s: Seq<u8>, i: int)
    requires
        0 <= i < s.len(),
        hex_digit_value(s[i]) is None,
    ensures
        hex_value(s) is None,
    decreases s.len(),
{
    if i == s.len() - 1 {
    } else {
        assert(s.drop_last()[i] == s[i]);
        lemma_hex_value_bad_digit(s.drop_last(), i);
    }
}

/// Parse a persisted color: one or more hex digits of either case whose
/// value fits a `u32`. Returns `None` exactly when the input is empty, holds
/// a non-digit, or overflows.
pub fn parse_argb_hex(digits: &[u8]) -> (r: Option<u32>)
    ensures
        r == parsed_hex(digits@),
{
    if digits.len() == 0 {
        return None;
    }
    let mut value: u32 = 0;
    let mut i: usize = 0;
    while i < digits.len()
        invariant
            i <= digits@.len(),
            digits@.len() > 0,
            hex_value(digits@.subrange(0, i as int)) == Some(value as int),
        decreases digits@.len() - i,
    {
        let b = digits[i];
        let d: u8 = if 0x30 <= b && b <= 0x39 {
            b - 0x30
        } else if 0x41 <= b && b <= 0x46 {
            b - 0x41 + 10
        } else if 0x61 <= b && b <= 0x66 {
            b - 0x61 + 10
        } else {
            proof {
                lemma_hex_value_bad_digit(digits@, i as int);
            }
            return None;
        };
        proof {
            vstd::arithmetic::div_mod::lemma_fundamental_div_mod(u32::MAX - d as int, 16);
            vstd::arithmetic::div_mod::lemma_mod_division_less_than_divisor(
                u32::MAX - d as int,
                16,
            );
            assert(digits@.subrange(0, i as int + 1).drop_last() =~= digits@.subrange(0, i as int));
            assert(digits@.subrange(0, i as int + 1).last() == digits@[i as int]);
        }
        if value > (u32::MAX - d as u32) / 16 {
            proof {
                // the prefix including this digit already overflows, and
                // longer prefixes only grow
                if hex_value(digits@) is Some {
                    lemma_hex_value_prefix(digits@, i as int + 1);
                }
            }
            return None;
        }
        value = value * 16 + d as u32;
        i = i + 1;
    }
    proof {
        assert(digits@.subrange(0, digits@.len() as int) =~= digits@);
    }
    Some(value)
}

} // verus!
