//! Core engine of a crosshair overlay application: a hotkey system that
//! compiles user-configured key chords into bit masks and turns raw keyboard
//! snapshots into edge-triggered toggles and ramped movement magnitudes,
//! together with the pixel, color and settings arithmetic around it.
//!
//! Everything here is pure logic over plain values; the platform backends
//! (window, tray, keyboard poller, file I/O) live outside and talk to this
//! library through the interfaces in [`platform`].

pub mod hotkey;
pub mod image;
pub mod keycode;
pub mod numeric;
pub mod platform;
pub mod settings;
