//! Pixel, color and drawing tests, including a float-precision reference
//! implementation of the HSV conversion to hold the integer math to.

use crosshair_overlay::image::{
    draw_color_picker, draw_color_picker_naive, draw_crosshair, hue_alpha_color_from_coordinates,
    hue_alpha_to_argb, hue_value_color_from_coordinates, hue_value_to_argb,
    multiply_color_channels_u8, premultiply_alpha, rectangle_center, rgba_to_argb,
    x_y_to_argb_252, Image, PngError,
};

/// HSV -> ARGB with f64 precision, for checking the optimized integer math.
fn hsv_to_argb_precise(hue: u8, saturation: u8, value: u8) -> u32 {
    const HUE_RATIO: f64 = 360.0 / 255.0;
    let hue = hue as f64 * HUE_RATIO;
    let saturation = saturation as f64 / 255.0;
    let value = value as f64 / 255.0;

    let hue_over_60 = hue / 60.0;
    let chroma = value * saturation;
    let intermediate_color = chroma * (1.0 - (hue_over_60 % 2.0 - 1.0).abs());

    let [r, g, b] = match hue_over_60 {
        h if h < 1.0 => [chroma, intermediate_color, 0.0],
        h if h < 2.0 => [intermediate_color, chroma, 0.0],
        h if h < 3.0 => [0.0, chroma, intermediate_color],
        h if h < 4.0 => [0.0, intermediate_color, chroma],
        h if h < 5.0 => [intermediate_color, 0.0, chroma],
        _ => [chroma, 0.0, intermediate_color],
    };

    let r = (r * 255.0).round() as u8;
    let g = (g * 255.0).round() as u8;
    let b = (b * 255.0).round() as u8;

    u32::from_le_bytes([b, g, r, 255])
}

/// Alpha premultiply with f64 precision and round-to-nearest.
fn multiply_color_channels_u8_precise(c: u8, a: u8) -> u8 {
    (c as f64 * a as f64 / 255f64).round() as u8
}

fn color_error(actual: u32, expected: u32) -> f64 {
    if actual == expected {
        return 0.0;
    }

    let [b1, g1, r1, a1] = actual.to_le_bytes();
    let [b2, g2, r2, a2] = expected.to_le_bytes();

    let b = b1 as f64 - b2 as f64;
    let g = g1 as f64 - g2 as f64;
    let r = r1 as f64 - r2 as f64;
    let a = a1 as f64 - a2 as f64;

    (b * b + g * g + r * r + a * a).sqrt()
}

#[test]
fn mod_test_le() {
    let b0 = 0u8;
    let b1 = 1u8;
    let b2 = 2u8;
    let b3 = 3u8;

    let u0 = b0 as u32;
    let u1 = b1 as u32;
    let u2 = b2 as u32;
    let u3 = b3 as u32;

    // a u32 made up of [b3, b2, b1, b0]
    let packed_u32 = (u3 << 24) + (u2 << 16) + (u1 << 8) + u0;

    let bytes = packed_u32.to_le_bytes();
    assert_eq!(&bytes, &[b0, b1, b2, b3]);
}

#[test]
fn mod_test_pixel_format_conversion() {
    let alpha = 255u8;
    let red = 20u8;
    let green = 40u8;
    let blue = 60u8;
    let png_data = u32::from_le_bytes([red, green, blue, alpha]);
    let argb_data = rgba_to_argb(png_data);
    assert_eq!(argb_data.to_le_bytes(), [blue, green, red, alpha]);
}

#[test]
fn mod_test_premultiply_alpha_noop() {
    assert_eq!(multiply_color_channels_u8(255, 255), 255);
    assert_eq!(multiply_color_channels_u8(127, 255), 127);
    assert_eq!(multiply_color_channels_u8(0, 255), 0);
}

#[test]
fn mod_test_premultiply_alpha_half() {
    assert_eq!(multiply_color_channels_u8(255, 127), 127);
    assert_eq!(multiply_color_channels_u8(127, 127), 63);
    assert_eq!(multiply_color_channels_u8(0, 127), 0);
}

#[test]
fn mod_test_premultiply_alpha_zero() {
    assert_eq!(multiply_color_channels_u8(255, 0), 0);
    assert_eq!(multiply_color_channels_u8(127, 0), 0);
    assert_eq!(multiply_color_channels_u8(0, 0), 0);
}

#[test]
fn mod_premultiply_alpha_rounding() {
    for c in 0..=255 {
        for a in [0, 1, 2, 3, 4, 20, 30, 40, 50, 60, 61, 62, 63, 64, 77, 127, 128, 254, 255] {
            let precise_result = multiply_color_channels_u8_precise(c, a);
            let actual_result = multiply_color_channels_u8(c, a);
            assert_eq!(actual_result, precise_result, "mismatch for c={c} a={a}")
        }
    }
}

#[test]
fn mod_test_rectangle_center_0_corner() {
    assert_eq!(rectangle_center(0, 0, 100, 100), (50, 50));
}

#[test]
fn mod_test_rectangle_center_0_corner_odd_size() {
    assert_eq!(rectangle_center(0, 0, 101, 101), (50, 50));
}

#[test]
fn mod_test_rectangle_center_even_corner() {
    assert_eq!(rectangle_center(2, 2, 96, 96), (50, 50));
}

#[test]
fn mod_test_rectangle_center_even_corner_odd_size() {
    assert_eq!(rectangle_center(2, 2, 97, 97), (50, 50));
}

#[test]
fn mod_test_rectangle_center_negative_corner() {
    assert_eq!(rectangle_center(-2, -2, 104, 104), (50, 50));
}

#[test]
fn mod_test_rectangle_center_negative_corner_odd_size() {
    assert_eq!(rectangle_center(-2, -2, 105, 105), (50, 50));
}

#[test]
fn mod_test_1080p_top_centered() {
    assert_eq!(rectangle_center(397, -1080, 1920, 1080), (397 + 960, -1080 + 540));
}

#[test]
fn mod_test_hv_to_argb_hue_only() {
    let max_error = 5f64;

    for hue in 0..=255 {
        let actual_argb = hue_value_to_argb(hue, 255);
        let expected_argb = hsv_to_argb_precise(hue, 255, 255);
        let error = color_error(actual_argb, expected_argb);
        assert!(
            error <= max_error,
            "precise and optimized hv->argb differ: @ hue {}, {:08X} != {:08X}, error={}",
            hue,
            actual_argb,
            expected_argb,
            error
        );
    }
}

#[test]
fn mod_test_ha_to_argb_hue_only() {
    let max_error = 5f64;

    for hue in 0..=255 {
        let actual_argb = hue_alpha_to_argb(hue, 255);
        let expected_argb = hsv_to_argb_precise(hue, 255, 255);
        let error = color_error(actual_argb, expected_argb);
        assert!(
            error <= max_error,
            "precise and optimized ha->argb differ: @ hue {}, {:08X} != {:08X}, error={}",
            hue,
            actual_argb,
            expected_argb,
            error
        );
    }
}

#[test]
fn mod_test_hv_to_argb_value_only() {
    let max_error = 5f64;

    for value in 0..=255 {
        let actual_argb = hue_value_to_argb(255, value);
        let expected_argb = hsv_to_argb_precise(255, 255, value);
        let error = color_error(actual_argb, expected_argb);
        assert!(
            error <= max_error,
            "precise and optimized hv->argb differ: @ value {}, {:08X} != {:08X}, error={}",
            value,
            actual_argb,
            expected_argb,
            error
        );
    }
}

fn rgb_to_hsv_precise(color: u32) -> (f64, f64, f64) {
    const MAX_COLOR: f64 = 255.0;
    let [b, g, r, _a] = color.to_le_bytes();
    let r = r as f64 / MAX_COLOR;
    let g = g as f64 / MAX_COLOR;
    let b = b as f64 / MAX_COLOR;

    let x_max = r.max(g.max(b));
    let x_min = r.min(g.min(b));
    let c = x_max - x_min;

    let h = if c == 0.0 {
        0.0
    } else if x_max == r {
        (((g - b) / c) % 6.0) / 60.0
    } else if x_max == g {
        (((b - r) / c) + 2.0) / 60.0
    } else {
        (((r - g) / c) + 4.0) / 60.0
    };

    let s = if x_max == 0.0 { 0.0 } else { c / x_max };

    (h, s, x_max)
}

fn hsv_close(a: (f64, f64, f64), b: (f64, f64, f64)) -> bool {
    // values range from 0 to 1 but come from u8 precision, so allow only a
    // u8's worth of rounding error
    const MAX_ERROR: f64 = 0.49 / 255.0;
    (a.0 - b.0).abs() < MAX_ERROR && (a.1 - b.1).abs() < MAX_ERROR && (a.2 - b.2).abs() < MAX_ERROR
}

fn check_picked_color(buffer: &[u32], x: usize, y: usize) {
    const BUFFER_DIMENSION: usize = 252;

    let (h, _s, v) = rgb_to_hsv_precise(buffer[y * BUFFER_DIMENSION + x]);
    let expected_color = (h, 1.0, 1.0);
    let expected_alpha = (v * 255.0).round() as u8;

    let calculated_color = x_y_to_argb_252(x as u8, y as u8);
    let actual_color = rgb_to_hsv_precise(calculated_color);
    let [_, _, _, actual_alpha] = calculated_color.to_le_bytes();
    assert!(hsv_close(expected_color, actual_color), "color did not match at ({x}, {y})");
    assert_eq!(expected_alpha, actual_alpha, "alpha did not match at ({x}, {y})");
}

#[test]
fn test_optimized_color_picker() {
    const BUFFER_DIMENSION: usize = 252;
    const BUFFER_SIZE: usize = BUFFER_DIMENSION * BUFFER_DIMENSION;

    let mut buffer = vec![0; BUFFER_SIZE];
    draw_color_picker(&mut buffer);

    assert_ne!(buffer[0], 0, "first pixel should be set");
    assert_ne!(buffer[buffer.len() - 1], 0, "last pixel should be set");

    check_picked_color(&buffer, 0, 0);
    check_picked_color(&buffer, 0, 252 - 1);
    check_picked_color(&buffer, 252 - 1, 0);
    check_picked_color(&buffer, 252 - 1, 252 - 1);
}

#[test]
fn image_test_le() {
    let b0 = 0u8;
    let b1 = 1u8;
    let b2 = 2u8;
    let b3 = 3u8;

    let u0 = b0 as u32;
    let u1 = b1 as u32;
    let u2 = b2 as u32;
    let u3 = b3 as u32;

    let packed_u32 = (u3 << 24) + (u2 << 16) + (u1 << 8) + u0;

    let bytes = packed_u32.to_le_bytes();
    assert_eq!(&bytes, &[b0, b1, b2, b3]);
}

#[test]
fn image_test_pixel_format_conversion() {
    let alpha = 255u8;
    let red = 20u8;
    let green = 40u8;
    let blue = 60u8;
    let png_data = u32::from_le_bytes([red, green, blue, alpha]);
    let argb_data = rgba_to_argb(png_data);
    assert_eq!(argb_data.to_le_bytes(), [blue, green, red, alpha]);
}

#[test]
fn image_test_premultiply_alpha_noop() {
    assert_eq!(multiply_color_channels_u8(255, 255), 255);
    assert_eq!(multiply_color_channels_u8(127, 255), 127);
    assert_eq!(multiply_color_channels_u8(0, 255), 0);
}

#[test]
fn image_test_premultiply_alpha_half() {
    assert_eq!(multiply_color_channels_u8(255, 127), 127);
    assert_eq!(multiply_color_channels_u8(127, 127), 63);
    assert_eq!(multiply_color_channels_u8(0, 127), 0);
}

#[test]
fn image_test_premultiply_alpha_zero() {
    assert_eq!(multiply_color_channels_u8(255, 0), 0);
    assert_eq!(multiply_color_channels_u8(127, 0), 0);
    assert_eq!(multiply_color_channels_u8(0, 0), 0);
}

#[test]
fn image_premultiply_alpha_rounding() {
    for c in 0..=255 {
        for a in [0, 1, 2, 3, 4, 20, 30, 40, 50, 60, 61, 62, 63, 64, 77, 127, 128, 254, 255] {
            let precise_result = multiply_color_channels_u8_precise(c, a);
            let actual_result = multiply_color_channels_u8(c, a);
            assert_eq!(actual_result, precise_result, "mismatch for c={c} a={a}")
        }
    }
}

#[test]
fn image_test_rectangle_center_0_corner() {
    assert_eq!(rectangle_center(0, 0, 100, 100), (50, 50));
}

#[test]
fn image_test_rectangle_center_0_corner_odd_size() {
    assert_eq!(rectangle_center(0, 0, 101, 101), (50, 50));
}

#[test]
fn image_test_rectangle_center_even_corner() {
    assert_eq!(rectangle_center(2, 2, 96, 96), (50, 50));
}

#[test]
fn image_test_rectangle_center_even_corner_odd_size() {
    assert_eq!(rectangle_center(2, 2, 97, 97), (50, 50));
}

#[test]
fn image_test_rectangle_center_negative_corner() {
    assert_eq!(rectangle_center(-2, -2, 104, 104), (50, 50));
}

#[test]
fn image_test_rectangle_center_negative_corner_odd_size() {
    assert_eq!(rectangle_center(-2, -2, 105, 105), (50, 50));
}

#[test]
fn image_test_1080p_top_centered() {
    assert_eq!(rectangle_center(397, -1080, 1920, 1080), (397 + 960, -1080 + 540));
}

#[test]
fn image_test_hv_to_argb_hue_only() {
    let max_error = 5f64;

    for hue in 0..=255 {
        let actual_argb = hue_value_to_argb(hue, 255);
        let expected_argb = hsv_to_argb_precise(hue, 255, 255);
        let error = color_error(actual_argb, expected_argb);
        assert!(
            error <= max_error,
            "precise and optimized hv->argb differ: @ hue {}, {:08X} != {:08X}, error={}",
            hue,
            actual_argb,
            expected_argb,
            error
        );
    }
}

#[test]
fn image_test_ha_to_argb_hue_only() {
    let max_error = 5f64;

    for hue in 0..=255 {
        let actual_argb = hue_alpha_to_argb(hue, 255);
        let expected_argb = hsv_to_argb_precise(hue, 255, 255);
        let error = color_error(actual_argb, expected_argb);
        assert!(
            error <= max_error,
            "precise and optimized ha->argb differ: @ hue {}, {:08X} != {:08X}, error={}",
            hue,
            actual_argb,
            expected_argb,
            error
        );
    }
}

#[test]
fn image_test_hv_to_argb_value_only() {
    let max_error = 5f64;

    for value in 0..=255 {
        let actual_argb = hue_value_to_argb(255, value);
        let expected_argb = hsv_to_argb_precise(255, 255, value);
        let error = color_error(actual_argb, expected_argb);
        assert!(
            error <= max_error,
            "precise and optimized hv->argb differ: @ value {}, {:08X} != {:08X}, error={}",
            value,
            actual_argb,
            expected_argb,
            error
        );
    }
}

#[test]
fn naive_picker_matches_cells() {
    let mut buffer = vec![0u32; 256 * 256];
    draw_color_picker_naive(&mut buffer);
    for &(x, y) in &[(0usize, 0usize), (255, 0), (0, 255), (255, 255), (100, 30)] {
        assert_eq!(buffer[y * 256 + x], hue_value_color_from_coordinates(x, y));
    }
}

#[test]
fn picked_color_from_window_coordinates() {
    // the picker window is exactly the 252-pixel box
    assert_eq!(hue_alpha_color_from_coordinates(10, 20, 252, 252), x_y_to_argb_252(10, 20));
}

#[test]
fn premultiply_alpha_scales_channels() {
    // 0xAARRGGBB with alpha 0x80: each channel halves, alpha is kept
    let color = 0x80FF7F00;
    let out = premultiply_alpha(color);
    let [b, g, r, a] = out.to_le_bytes();
    assert_eq!(a, 0x80);
    assert_eq!(r, 128); // (255*128 + 127) / 255
    assert_eq!(g, 64); // (127*128 + 127) / 255
    assert_eq!(b, 0);
}

#[test]
fn crosshair_has_centered_cross() {
    let width = 5usize;
    let height = 4usize;
    let color = 0xB2FF0000u32;
    let mut buffer = vec![7u32; width * height];
    draw_crosshair(&mut buffer, width, height, color);
    for row in 0..height {
        for col in 0..width {
            let expected = if row == 2 || row == 1 || col == 2 { color } else { 0 };
            assert_eq!(buffer[row * width + col], expected, "at ({row}, {col})");
        }
    }
}

#[test]
fn crosshair_degenerates_to_dot() {
    let mut buffer = vec![0u32; 2 * 7];
    draw_crosshair(&mut buffer, 2, 7, 0xFF00FF00);
    assert!(buffer.iter().all(|&p| p == 0xFF00FF00));
}

fn encode_png(width: u32, height: u32, color_type: png::ColorType, data: &[u8]) -> Vec<u8> {
    let mut bytes: Vec<u8> = Vec::new();
    {
        let mut encoder = png::Encoder::new(&mut bytes, width, height);
        encoder.set_color(color_type);
        encoder.set_depth(png::BitDepth::Eight);
        let mut writer = encoder.write_header().unwrap();
        writer.write_image_data(data).unwrap();
    }
    bytes
}

#[test]
fn load_png_decodes_and_premultiplies() {
    // two RGBA pixels: opaque red, half-transparent gray
    let raw = [255u8, 0, 0, 255, 100, 100, 100, 128];
    let bytes = encode_png(2, 1, png::ColorType::Rgba, &raw);
    let image: Image = crosshair_overlay::image::load_png(&bytes).unwrap();
    assert_eq!(image.width, 2);
    assert_eq!(image.height, 1);
    assert_eq!(image.data.len(), 2);
    // opaque red: bytes (b, g, r, a) = (0, 0, 255, 255)
    assert_eq!(image.data[0].to_le_bytes(), [0, 0, 255, 255]);
    // gray at alpha 128: each channel becomes (100*128 + 127) / 255 == 50
    assert_eq!(image.data[1].to_le_bytes(), [50, 50, 50, 128]);
}

#[test]
fn load_png_rejects_wrong_color_type() {
    let raw = [255u8, 0, 0, 0, 255, 0];
    let bytes = encode_png(2, 1, png::ColorType::Rgb, &raw);
    match crosshair_overlay::image::load_png(&bytes) {
        Err(PngError::UnsupportedColorType) => {}
        other => panic!("expected UnsupportedColorType, got {:?}", other.is_ok()),
    }
}

#[test]
fn load_png_rejects_garbage() {
    let bytes = [1u8, 2, 3, 4, 5, 6, 7, 8, 9];
    match crosshair_overlay::image::load_png(&bytes) {
        Err(PngError::Decode(_)) => {}
        other => panic!("expected a decode error, got {:?}", other.is_ok()),
    }
}

#[test]
fn icon_is_a_colored_circle() {
    let size = 32u32;
    let icon = crosshair_overlay::image::generate_icon_rgba(size);
    assert_eq!(icon.len(), (size * size * 4) as usize);

    // the center pixel is inside the circle: opaque red with some green/blue
    let center = ((16 * size + 16) * 4) as usize;
    assert_eq!(icon[center], 255);
    assert_eq!(icon[center + 1], 64); // 16 * 128 / 32
    assert_eq!(icon[center + 2], 64);
    assert_eq!(icon[center + 3], 255);

    // the corner pixel is outside: fully transparent black
    assert_eq!(&icon[0..4], &[0, 0, 0, 0]);
}
