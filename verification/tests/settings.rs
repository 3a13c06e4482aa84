//! Tests for the settings state machine and the persisted hex color form.

use crosshair_overlay::image::COLOR_PICKER_SIZE;
use crosshair_overlay::settings::{
    format_argb_hex, parse_argb_hex, PersistedSettings, PixelPosition, PixelSize, RenderMode,
    Settings, DEFAULT_COLOR, DEFAULT_SIZE,
};

fn encode_rgba_png(width: u32, height: u32, data: &[u8]) -> Vec<u8> {
    let mut bytes: Vec<u8> = Vec::new();
    {
        let mut encoder = png::Encoder::new(&mut bytes, width, height);
        encoder.set_color(png::ColorType::Rgba);
        encoder.set_depth(png::BitDepth::Eight);
        let mut writer = encoder.write_header().unwrap();
        writer.write_image_data(data).unwrap();
    }
    bytes
}

#[test]
fn default_settings_are_consistent() {
    let settings = Settings::default();
    assert_eq!(settings.render_mode, RenderMode::Crosshair);
    assert_eq!(settings.persisted.color, DEFAULT_COLOR);
    assert_eq!(settings.monitor_index, 0);
    assert_eq!(settings.tick_interval_millis, 17); // ceil(1000 / 60)
    assert!(settings.image.is_none());
    let size = settings.size();
    assert_eq!(size, PixelSize { width: DEFAULT_SIZE, height: DEFAULT_SIZE });
}

#[test]
fn set_color_enters_crosshair_mode() {
    let mut settings = Settings::default();
    settings.set_color(0x80FF7F00);
    assert_eq!(settings.persisted.color, 0x80FF7F00);
    // drawing color has alpha premultiplied into the channels
    assert_eq!(settings.color.to_le_bytes(), [0, 64, 128, 0x80]);
    assert_eq!(settings.render_mode, RenderMode::Crosshair);
    assert!(settings.persisted.image_path.is_none());
}

#[test]
fn toggle_pick_color_flips_and_falls_back() {
    let mut settings = Settings::default();
    assert!(!settings.get_pick_color());
    assert!(settings.toggle_pick_color());
    assert_eq!(settings.render_mode, RenderMode::ColorPicker);
    let size = settings.size();
    assert_eq!(size.width, COLOR_PICKER_SIZE as u32);
    assert!(!settings.toggle_pick_color());
    assert_eq!(settings.render_mode, RenderMode::Crosshair);
}

#[test]
fn set_pick_color_is_idempotent() {
    let mut settings = Settings::default();
    settings.set_pick_color(true);
    settings.set_pick_color(true);
    assert!(settings.get_pick_color());
    settings.set_pick_color(false);
    assert!(!settings.get_pick_color());
}

#[test]
fn loading_a_png_enters_image_mode() {
    let mut settings = Settings::default();
    let raw = [1u8, 2, 3, 255, 4, 5, 6, 255, 7, 8, 9, 255];
    let bytes = encode_rgba_png(3, 1, &raw);
    settings.load_png(String::from("crosshair.png"), &bytes).unwrap();
    assert_eq!(settings.render_mode, RenderMode::Image);
    assert!(!settings.is_scalable());
    assert_eq!(settings.size(), PixelSize { width: 3, height: 1 });
    assert_eq!(settings.persisted.image_path.as_deref(), Some("crosshair.png"));

    // a failed load leaves everything in place
    assert!(settings.load_png(String::from("broken.png"), &[0, 1, 2]).is_err());
    assert_eq!(settings.render_mode, RenderMode::Image);
    assert_eq!(settings.persisted.image_path.as_deref(), Some("crosshair.png"));

    settings.reset();
    assert_eq!(settings.render_mode, RenderMode::Crosshair);
    assert!(settings.is_scalable());
    assert!(settings.image().is_none());
}

#[test]
fn into_settings_derives_runtime_values() {
    let mut persisted = PersistedSettings::default();
    persisted.fps = 144;
    persisted.monitor = 2;
    let settings = persisted.into_settings(None);
    assert_eq!(settings.tick_interval_millis, 7); // ceil(1000 / 144)
    assert_eq!(settings.monitor_index, 1);
    assert_eq!(settings.render_mode, RenderMode::Crosshair);
}

#[test]
fn window_coordinates_center_the_overlay() {
    // a 1920x1080 monitor whose top-left corner is at (397, -1080), with the
    // default 16-pixel crosshair and no offsets
    let settings = Settings::default();
    let position = settings.compute_window_coordinates(
        PixelPosition { x: 397, y: -1080 },
        PixelSize { width: 1920, height: 1080 },
    );
    assert_eq!(position, PixelPosition { x: 397 + 960 - 8, y: -1080 + 540 - 8 });
}

#[test]
fn window_coordinates_apply_offsets() {
    let mut settings = Settings::default();
    settings.persisted.window_dx = -5;
    settings.persisted.window_dy = 11;
    let position = settings.compute_window_coordinates(
        PixelPosition { x: 0, y: 0 },
        PixelSize { width: 100, height: 100 },
    );
    assert_eq!(position, PixelPosition { x: 50 - 8 - 5, y: 50 - 8 + 11 });
}

#[test]
fn hex_color_round_trip() {
    for color in [0u32, 1, 0xB2FF0000, 0xFFFFFFFF, 0x00000001, 0x12345678] {
        let digits = format_argb_hex(color);
        assert_eq!(digits.len(), 8);
        assert_eq!(parse_argb_hex(&digits), Some(color));
    }
}

#[test]
fn hex_color_formats_uppercase() {
    assert_eq!(format_argb_hex(0xB2FF0000), b"B2FF0000".to_vec());
    assert_eq!(format_argb_hex(0x0000000A), b"0000000A".to_vec());
}

#[test]
fn hex_color_parses_either_case_and_short_forms() {
    assert_eq!(parse_argb_hex(b"b2ff0000"), Some(0xB2FF0000));
    assert_eq!(parse_argb_hex(b"FF"), Some(255));
    assert_eq!(parse_argb_hex(b"0"), Some(0));
    assert_eq!(parse_argb_hex(b"00000000000012"), Some(0x12));
}

#[test]
fn hex_color_rejects_bad_input() {
    assert_eq!(parse_argb_hex(b""), None);
    assert_eq!(parse_argb_hex(b"12G4"), None);
    assert_eq!(parse_argb_hex(b"-12"), None);
    assert_eq!(parse_argb_hex(b"100000000"), None); // overflows a u32
    assert_eq!(parse_argb_hex(b"FFFFFFFFFFFFFFFF"), None);
}
