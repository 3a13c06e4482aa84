//! Pixel and color arithmetic: packed ARGB colors, alpha premultiplication,
//! the color-picker gradients, crosshair drawing, PNG loading, and rectangle
//! centering.
//!
//! A pixel is a `u32` whose little-endian bytes are blue, green, red, alpha
//! in that order (an "ARGB" word when read as one big-endian number).

use vstd::prelude::*;

use crate::numeric::DivFloor;

verus! {

/// Side length of the color picker box: six hue sections, 42 columns each.
pub const COLOR_PICKER_SIZE: usize = 42 * 6;

/// In-memory image: ARGB pixel data in row-major order.
pub struct Image {
    /// Image width in pixels.
    pub width: u32,
    /// Image height in pixels.
    pub height: u32,
    /// ARGB pixel color data.
    pub data: Vec<u32>,
}

// ---------------------------------------------------------------------------
// Packed color words
// ---------------------------------------------------------------------------

/// The `u32` whose little-endian bytes are `b0, b1, b2, b3`.
pub open spec fn le_word(b0: u8, b1: u8, b2: u8, b3: u8) -> u32 {
    (b0 + b1 * 0x100 + b2 * 0x1_0000 + b3 * 0x100_0000) as u32
}

/// The lowest little-endian byte of `c`.
pub open spec fn byte0(c: u32) -> u8 {
    (c % 0x100) as u8
}

/// The second little-endian byte of `c`.
pub open spec fn byte1(c: u32) -> u8 {
    ((c / 0x100) % 0x100) as u8
}

/// The third little-endian byte of `c`.
pub open spec fn byte2(c: u32) -> u8 {
    ((c / 0x1_0000) % 0x100) as u8
}

/// The highest little-endian byte of `c`.
pub open spec fn byte3(c: u32) -> u8 {
    ((c / 0x100_0000) % 0x100) as u8
}

/// Pack four bytes into a word, lowest first.
fn pack_le_bytes(b0: u8, b1: u8, b2: u8, b3: u8) -> (r: u32)
    ensures
        r == le_word(b0, b1, b2, b3),
{
    let r = (b0 as u32) | ((b1 as u32) << 8) | ((b2 as u32) << 16) | ((b3 as u32) << 24);
    proof {
        let x0 = b0 as u32;
        let x1 = b1 as u32;
        let x2 = b2 as u32;
        let x3 = b3 as u32;
        assert(x0 | (x1 << 8) | (x2 << 16) | (x3 << 24) == x0 + x1 * 0x100 + x2 * 0x1_0000 + x3
            * 0x100_0000) by (bit_vector)
            requires
                x0 < 0x100,
                x1 < 0x100,
                x2 < 0x100,
                x3 < 0x100,
        ;
    }
    r
}

/// Split a word into its four bytes, lowest first.
fn unpack_le_bytes(c: u32) -> (r: (u8, u8, u8, u8))
    ensures
        r.0 == byte0(c),
        r.1 == byte1(c),
        r.2 == byte2(c),
        r.3 == byte3(c),
{
    proof {
        assert((c & 0xFF) == c % 0x100) by (bit_vector);
        assert(((c >> 8) & 0xFF) == (c / 0x100) % 0x100) by (bit_vector);
        assert(((c >> 16) & 0xFF) == (c / 0x1_0000) % 0x100) by (bit_vector);
        assert((c >> 24) == (c / 0x100_0000) % 0x100) by (bit_vector);
        assert(c % 0x100 < 0x100) by (bit_vector);
        assert((c / 0x100) % 0x100 < 0x100) by (bit_vector);
        assert((c / 0x1_0000) % 0x100 < 0x100) by (bit_vector);
        assert((c / 0x100_0000) % 0x100 < 0x100) by (bit_vector);
    }
    let b0 = (c & 0xFF) as u8;
    let b1 = ((c >> 8) & 0xFF) as u8;
    let b2 = ((c >> 16) & 0xFF) as u8;
    let b3 = (c >> 24) as u8;
    (b0, b1, b2, b3)
}

// ---------------------------------------------------------------------------
// Channel arithmetic
// ---------------------------------------------------------------------------

/// `a * b / 255`, rounded to the nearest integer (adding 127 to the dividend
/// before the truncating division rounds to nearest).
pub open spec fn mul_channel(a: u8, b: u8) -> u8 {
    ((a * b + 127) / 255) as u8
}

/// Multiply two color channels, treating each byte as a fraction of 255.
/// The intermediate product needs 16 bits; the result is rounded to nearest.
pub fn multiply_color_channels_u8(a: u8, b: u8) -> (r: u8)
    ensures
        r == mul_channel(a, b),
{
    proof {
        assert((a as int) * (b as int) <= 255 * 255) by (nonlinear_arith)
            requires
                a as int <= 255,
                b as int <= 255,
        ;
        vstd::arithmetic::div_mod::lemma_div_is_ordered(
            a as int * b as int + 127,
            65152,
            255,
        );
    }
    let wide = a as u16 * b as u16 + 127;
    (wide / 255) as u8
}

/// `color` with each color channel multiplied by its alpha channel, as the
/// compositor of the target platform expects.
pub open spec fn premultiplied(color: u32) -> u32 {
    le_word(
        mul_channel(byte0(color), byte3(color)),
        mul_channel(byte1(color), byte3(color)),
        mul_channel(byte2(color), byte3(color)),
        byte3(color),
    )
}

/// Premultiply the alpha channel into the three color channels of a packed
/// ARGB color.
pub fn premultiply_alpha(color: u32) -> (r: u32)
    ensures
        r == premultiplied(color),
{
    let (b, g, red, a) = unpack_le_bytes(color);
    pack_le_bytes(
        multiply_color_channels_u8(b, a),
        multiply_color_channels_u8(g, a),
        multiply_color_channels_u8(red, a),
        a,
    )
}

/// An RGBA word as PNG data lays it out (red in the lowest byte), converted
/// to an ARGB word with premultiplied alpha.
pub open spec fn argb_from_rgba(rgba: u32) -> u32 {
    le_word(
        mul_channel(byte2(rgba), byte3(rgba)),
        mul_channel(byte1(rgba), byte3(rgba)),
        mul_channel(byte0(rgba), byte3(rgba)),
        byte3(rgba),
    )
}

/// Convert one RGBA pixel word (as read little-endian from PNG byte data) to
/// a premultiplied ARGB pixel word.
pub fn rgba_to_argb(rgba_color: u32) -> (r: u32)
    ensures
        r == argb_from_rgba(rgba_color),
{
    let (red, g, b, a) = unpack_le_bytes(rgba_color);
    pack_le_bytes(
        multiply_color_channels_u8(b, a),
        multiply_color_channels_u8(g, a),
        multiply_color_channels_u8(red, a),
        a,
    )
}

// ---------------------------------------------------------------------------
// Hue gradients
// ---------------------------------------------------------------------------

/// The hue byte spread into a sawtooth that runs 0..=255 within each of the
/// six hue sections.
pub open spec fn sawtooth(hue: u8) -> u8 {
    ((hue as nat * 6) % 256) as u8
}

/// HSV to ARGB with saturation pinned at 100%: red, green and blue per hue
/// section (boundaries at the ceilings of the multiples of 256/6), alpha
/// fully opaque.
pub open spec fn hue_value_argb(hue: u8, value: u8) -> u32 {
    let raw = sawtooth(hue);
    if hue < 43 {
        le_word(0, mul_channel(raw, value), value, 255)
    } else if hue < 86 {
        le_word(0, value, mul_channel((255 - raw) as u8, value), 255)
    } else if hue < 128 {
        le_word(mul_channel(raw, value), value, 0, 255)
    } else if hue < 171 {
        le_word(value, mul_channel((255 - raw) as u8, value), 0, 255)
    } else if hue < 214 {
        le_word(value, 0, mul_channel(raw, value), 255)
    } else {
        le_word(mul_channel((255 - raw) as u8, value), 0, value, 255)
    }
}

/// HSV to ARGB conversion with saturation pinned at 100%.
pub fn hue_value_to_argb(hue: u8, value: u8) -> (r: u32)
    ensures
        r == hue_value_argb(hue, value),
{
    let raw_hue = hue.wrapping_mul(6);
    if hue < 43 {
        pack_le_bytes(0, multiply_color_channels_u8(raw_hue, value), value, 255)
    } else if hue < 86 {
        pack_le_bytes(0, value, multiply_color_channels_u8(255 - raw_hue, value), 255)
    } else if hue < 128 {
        pack_le_bytes(multiply_color_channels_u8(raw_hue, value), value, 0, 255)
    } else if hue < 171 {
        pack_le_bytes(value, multiply_color_channels_u8(255 - raw_hue, value), 0, 255)
    } else if hue < 214 {
        pack_le_bytes(value, 0, multiply_color_channels_u8(raw_hue, value), 255)
    } else {
        pack_le_bytes(multiply_color_channels_u8(255 - raw_hue, value), 0, value, 255)
    }
}

/// HSV to ARGB with saturation and value pinned at 100% and a caller-chosen
/// alpha channel.
pub open spec fn hue_alpha_argb(hue: u8, alpha: u8) -> u32 {
    let raw = sawtooth(hue);
    if hue < 43 {
        le_word(0, raw, 255, alpha)
    } else if hue < 86 {
        le_word(0, 255, (255 - raw) as u8, alpha)
    } else if hue < 128 {
        le_word(raw, 255, 0, alpha)
    } else if hue < 171 {
        le_word(255, (255 - raw) as u8, 0, alpha)
    } else if hue < 214 {
        le_word(255, 0, raw, alpha)
    } else {
        le_word((255 - raw) as u8, 0, 255, alpha)
    }
}

/// HSV to ARGB conversion with saturation and value pinned at 100%.
pub fn hue_alpha_to_argb(hue: u8, alpha: u8) -> (r: u32)
    ensures
        r == hue_alpha_argb(hue, alpha),
{
    let raw_hue = hue.wrapping_mul(6);
    if hue < 43 {
        pack_le_bytes(0, raw_hue, 255, alpha)
    } else if hue < 86 {
        pack_le_bytes(0, 255, 255 - raw_hue, alpha)
    } else if hue < 128 {
        pack_le_bytes(raw_hue, 255, 0, alpha)
    } else if hue < 171 {
        pack_le_bytes(255, 255 - raw_hue, 0, alpha)
    } else if hue < 214 {
        pack_le_bytes(255, 0, raw_hue, alpha)
    } else {
        pack_le_bytes(255 - raw_hue, 0, 255, alpha)
    }
}

/// The crosshair color picked at color-picker coordinates `(x, y)`: hue from
/// the column (sections at the multiples of 42), alpha from the row, fully
/// saturated and valued.
pub open spec fn picked_argb(x: u8, y: u8) -> u32 {
    let raw = sawtooth(x);
    if x < 42 {
        le_word(0, raw, 255, (255 - y) as u8)
    } else if x < 84 {
        le_word(0, 255, (255 - raw) as u8, (255 - y) as u8)
    } else if x < 126 {
        le_word(raw, 255, 0, (255 - y) as u8)
    } else if x < 168 {
        le_word(255, (255 - raw) as u8, 0, (255 - y) as u8)
    } else if x < 210 {
        le_word(255, 0, raw, (255 - y) as u8)
    } else {
        le_word((255 - raw) as u8, 0, 255, (255 - y) as u8)
    }
}

/// The crosshair color for picker coordinates `(x, y)` in the 252-pixel box.
pub fn x_y_to_argb_252(x: u8, y: u8) -> (r: u32)
    ensures
        r == picked_argb(x, y),
{
    let raw_hue = x.wrapping_mul(6);
    if x < 42 {
        pack_le_bytes(0, raw_hue, 255, 255 - y)
    } else if x < 84 {
        pack_le_bytes(0, 255, 255 - raw_hue, 255 - y)
    } else if x < 126 {
        pack_le_bytes(raw_hue, 255, 0, 255 - y)
    } else if x < 168 {
        pack_le_bytes(255, 255 - raw_hue, 0, 255 - y)
    } else if x < 210 {
        pack_le_bytes(255, 0, raw_hue, 255 - y)
    } else {
        pack_le_bytes(255 - raw_hue, 0, 255, 255 - y)
    }
}

/// The crosshair color for a click at `(x, y)` in the color picker window.
/// The window is the picker box, so both dimensions must be its side length.
pub fn hue_alpha_color_from_coordinates(
    x: usize,
    y: usize,
    width: usize,
    height: usize,
) -> (r: u32)
    requires
        width == COLOR_PICKER_SIZE,
        height == COLOR_PICKER_SIZE,
        x < width,
        y < height,
    ensures
        r == picked_argb(x as u8, y as u8),
{
    x_y_to_argb_252(x as u8, y as u8)
}

/// The color of naive color-picker cell `(x, y)`: hue from the column, value
/// fading out toward the bottom row.
pub fn hue_value_color_from_coordinates(x: usize, y: usize) -> (r: u32)
    requires
        x < 256,
        y < 256,
    ensures
        r == hue_value_argb(x as u8, (255 - y) as u8),
{
    hue_value_to_argb(x as u8, 255 - (y as u8))
}

// ---------------------------------------------------------------------------
// Drawing
// ---------------------------------------------------------------------------

/// The pixel of a row-major buffer at `(row, col)`.
pub open spec fn pixel_at(buf: Seq<u32>, width: int, row: int, col: int) -> u32 {
    buf[row * width + col]
}

/// Positions at the same column offset within distinct rows are distinct.
proof fn lemma_row_col_index(width: int, r1: int, c1: int, r2: int, c2: int)
    requires
        width > 0,
        0 <= c1 < width,
        0 <= c2 < width,
        r1 * width + c1 == r2 * width + c2,
    ensures
        r1 == r2,
        c1 == c2,
{
    assert(r1 == r2 && c1 == c2) by (nonlinear_arith)
        requires
            width > 0,
            0 <= c1 < width,
            0 <= c2 < width,
            r1 * width + c1 == r2 * width + c2,
    ;
}

/// A row-major position lies inside the buffer.
proof fn lemma_index_bound(width: int, height: int, r: int, c: int)
    requires
        0 <= r < height,
        0 <= c < width,
    ensures
        0 <= r * width + c < width * height,
{
    assert(0 <= r * width + c < width * height) by (nonlinear_arith)
        requires
            0 <= r < height,
            0 <= c < width,
    ;
}

/// The pixel at `(row, col)` of the color picker: six 42-column hue sections
/// left to right, fully bright at the top row and fading downward.
pub open spec fn picker_pixel(row: int, col: int) -> u32 {
    let value = (255 - row) as u8;
    let section = col / 42;
    let offset = col % 42;
    let up = mul_channel((6 * offset) as u8, value);
    let down = mul_channel((255 - 6 * offset) as u8, value);
    if section == 0 {
        le_word(0, up, value, 255)
    } else if section == 1 {
        le_word(0, value, down, 255)
    } else if section == 2 {
        le_word(up, value, 0, 255)
    } else if section == 3 {
        le_word(value, down, 0, 255)
    } else if section == 4 {
        le_word(value, 0, up, 255)
    } else {
        le_word(down, 0, value, 255)
    }
}

/// Fill the square picker buffer with the hue/value gradient, writing the six
/// hue sections of each row in one pass.
pub fn draw_color_picker(buffer: &mut Vec<u32>)
    requires
        old(buffer)@.len() == COLOR_PICKER_SIZE * COLOR_PICKER_SIZE,
    ensures
        final(buffer)@.len() == COLOR_PICKER_SIZE * COLOR_PICKER_SIZE,
        forall|r: int, c: int|
            0 <= r < COLOR_PICKER_SIZE && 0 <= c < COLOR_PICKER_SIZE ==> pixel_at(
                final(buffer)@,
                COLOR_PICKER_SIZE as int,
                r,
                c,
            ) == picker_pixel(r, c),
{
    let mut value: u8 = 255;
    let mut row: usize = 0;
    while row < COLOR_PICKER_SIZE
        invariant
            buffer@.len() == COLOR_PICKER_SIZE * COLOR_PICKER_SIZE,
            row <= COLOR_PICKER_SIZE,
            value == 255 - row,
            forall|r: int, c: int|
                0 <= r < row && 0 <= c < COLOR_PICKER_SIZE ==> pixel_at(
                    buffer@,
                    COLOR_PICKER_SIZE as int,
                    r,
                    c,
                ) == picker_pixel(r, c),
        decreases COLOR_PICKER_SIZE - row,
    {
        let mut ramp_up: u8 = 0;
        let mut ramp_down: u8 = 255;
        let row_offset = row * COLOR_PICKER_SIZE;
        let mut col: usize = 0;
        while col < 42
            invariant
                buffer@.len() == COLOR_PICKER_SIZE * COLOR_PICKER_SIZE,
                row < COLOR_PICKER_SIZE,
                row_offset == row * COLOR_PICKER_SIZE,
                value == 255 - row,
                col <= 42,
                ramp_up == 6 * col,
                ramp_down == 255 - 6 * col,
                forall|r: int, c: int|
                    0 <= r < row && 0 <= c < COLOR_PICKER_SIZE ==> pixel_at(
                        buffer@,
                        COLOR_PICKER_SIZE as int,
                        r,
                        c,
                    ) == picker_pixel(r, c),
                forall|c: int|
                    0 <= c < COLOR_PICKER_SIZE && c % 42 < col ==> pixel_at(
                        buffer@,
                        COLOR_PICKER_SIZE as int,
                        row as int,
                        c,
                    ) == picker_pixel(row as int, c),
            decreases 42 - col,
        {
            let ramp_up_times_value = multiply_color_channels_u8(ramp_up, value);
            let ramp_down_times_value = multiply_color_channels_u8(ramp_down, value);
            let ghost pre = buffer@;

            let p0 = pack_le_bytes(0, ramp_up_times_value, value, 255);
            let p1 = pack_le_bytes(0, value, ramp_down_times_value, 255);
            let p2 = pack_le_bytes(ramp_up_times_value, value, 0, 255);
            let p3 = pack_le_bytes(value, ramp_down_times_value, 0, 255);
            let p4 = pack_le_bytes(value, 0, ramp_up_times_value, 255);
            let p5 = pack_le_bytes(ramp_down_times_value, 0, value, 255);

            proof {
                assert(COLOR_PICKER_SIZE == 252);
                lemma_index_bound(
                    COLOR_PICKER_SIZE as int,
                    COLOR_PICKER_SIZE as int,
                    row as int,
                    210 + col,
                );
            }
            buffer[row_offset + col] = p0;
            buffer[row_offset + 42 + col] = p1;
            buffer[row_offset + 84 + col] = p2;
            buffer[row_offset + 126 + col] = p3;
            buffer[row_offset + 168 + col] = p4;
            buffer[row_offset + 210 + col] = p5;

            proof {
                let w = COLOR_PICKER_SIZE as int;
                assert forall|r: int, c: int|
                    0 <= r < row && 0 <= c < COLOR_PICKER_SIZE implies pixel_at(buffer@, w, r, c)
                    == picker_pixel(r, c) by {
                    // rows already finished are untouched by this iteration
                    lemma_index_bound(w, w, r, c);
                    assert(pixel_at(pre, w, r, c) == picker_pixel(r, c));
                    assert(buffer@[r * w + c] == pre[r * w + c]);
                }
                assert forall|c: int|
                    0 <= c < COLOR_PICKER_SIZE && c % 42 < col + 1 implies pixel_at(
                    buffer@,
                    COLOR_PICKER_SIZE as int,
                    row as int,
                    c,
                ) == picker_pixel(row as int, c) by {
                    let section = c / 42;
                    assert(c == 42 * section + c % 42);
                    assert(0 <= section < 6);
                    if c % 42 == col {
                        assert(buffer@[row * w + c] == picker_pixel(row as int, c));
                    } else {
                        // untouched this iteration: every write went to a
                        // position whose column offset is `col`
                        assert(pixel_at(pre, w, row as int, c) == picker_pixel(row as int, c));
                        assert(buffer@[row * w + c] == pre[row * w + c]);
                    }
                }
            }
            ramp_up = ramp_up + 6;
            ramp_down = ramp_down - 6;
            col = col + 1;
        }
        proof {
            assert forall|c: int|
                0 <= c < COLOR_PICKER_SIZE implies pixel_at(
                buffer@,
                COLOR_PICKER_SIZE as int,
                row as int,
                c,
            ) == picker_pixel(row as int, c) by {
                assert(c % 42 < 42);
            }
        }
        value = value - 1;
        row = row + 1;
    }
}

/// Fill the 256-by-256 naive picker buffer cell by cell: hue from the column,
/// value fading out toward the bottom row.
pub fn draw_color_picker_naive(buffer: &mut Vec<u32>)
    requires
        old(buffer)@.len() == 256 * 256,
    ensures
        final(buffer)@.len() == 256 * 256,
        forall|x: int, y: int|
            0 <= x < 256 && 0 <= y < 256 ==> pixel_at(final(buffer)@, 256, y, x)
                == hue_value_argb(x as u8, (255 - y) as u8),
{
    let mut y: usize = 0;
    while y < 256
        invariant
            buffer@.len() == 256 * 256,
            y <= 256,
            forall|xx: int, yy: int|
                0 <= xx < 256 && 0 <= yy < y ==> pixel_at(buffer@, 256, yy, xx)
                    == hue_value_argb(xx as u8, (255 - yy) as u8),
        decreases 256 - y,
    {
        let mut x: usize = 0;
        while x < 256
            invariant
                buffer@.len() == 256 * 256,
                y < 256,
                x <= 256,
                forall|xx: int, yy: int|
                    0 <= xx < 256 && 0 <= yy < y ==> pixel_at(buffer@, 256, yy, xx)
                        == hue_value_argb(xx as u8, (255 - yy) as u8),
                forall|xx: int|
                    0 <= xx < x ==> pixel_at(buffer@, 256, y as int, xx) == hue_value_argb(
                        xx as u8,
                        (255 - y) as u8,
                    ),
            decreases 256 - x,
        {
            let ghost pre = buffer@;
            let pixel = hue_value_color_from_coordinates(x, y);
            buffer[y * 256 + x] = pixel;
            proof {
                assert forall|xx: int, yy: int|
                    0 <= xx < 256 && 0 <= yy < y implies pixel_at(buffer@, 256, yy, xx)
                    == hue_value_argb(xx as u8, (255 - yy) as u8) by {
                    assert(pixel_at(pre, 256, yy, xx) == pre[yy * 256 + xx]);
                    assert(buffer@[yy * 256 + xx] == pre[yy * 256 + xx]);
                }
                assert forall|xx: int|
                    0 <= xx < x + 1 implies pixel_at(buffer@, 256, y as int, xx)
                    == hue_value_argb(xx as u8, (255 - y) as u8) by {
                    if xx < x {
                        assert(pixel_at(pre, 256, y as int, xx) == pre[y * 256 + xx]);
                        assert(buffer@[y * 256 + xx] == pre[y * 256 + xx]);
                    }
                }
            }
            x = x + 1;
        }
        y = y + 1;
    }
}

/// Whether the pixel at `(row, col)` lies on the crosshair: the one or two
/// center rows and the one or two center columns (two when the respective
/// dimension is even, so the cross stays centered).
pub open spec fn on_crosshair(width: int, height: int, row: int, col: int) -> bool {
    ||| row == height / 2
    ||| height % 2 == 0 && row == height / 2 - 1
    ||| col == width / 2
    ||| width % 2 == 0 && col == width / 2 - 1
}

/// Draw a `+`-shaped crosshair of the given color on a transparent
/// background. When the buffer is too small for a cross (either dimension at
/// most 2) every pixel is the crosshair color: a plain dot.
pub fn draw_crosshair(buffer: &mut Vec<u32>, width: usize, height: usize, color: u32)
    requires
        old(buffer)@.len() == width * height,
    ensures
        final(buffer)@.len() == width * height,
        width <= 2 || height <= 2 ==> forall|i: int|
            0 <= i < width * height ==> final(buffer)@[i] == color,
        width > 2 && height > 2 ==> forall|r: int, c: int|
            0 <= r < height && 0 <= c < width ==> pixel_at(final(buffer)@, width as int, r, c)
                == (if on_crosshair(width as int, height as int, r, c) {
                color
            } else {
                0u32
            }),
{
    let ghost w = width as int;
    let ghost h = height as int;
    let len = buffer.len();
    if width <= 2 || height <= 2 {
        let mut i: usize = 0;
        while i < len
            invariant
                buffer@.len() == len,
                i <= len,
                forall|k: int| 0 <= k < i ==> buffer@[k] == color,
            decreases len - i,
        {
            buffer[i] = color;
            i = i + 1;
        }
    } else {
        // clear to fully transparent
        let mut i: usize = 0;
        while i < len
            invariant
                buffer@.len() == len,
                i <= len,
                forall|k: int| 0 <= k < i ==> buffer@[k] == 0u32,
            decreases len - i,
        {
            buffer[i] = 0;
            i = i + 1;
        }
        proof {
            assert forall|r: int, c: int| 0 <= r < h && 0 <= c < w implies pixel_at(
                buffer@,
                w,
                r,
                c,
            ) == 0u32 by {
                lemma_index_bound(w, h, r, c);
            }
        }

        // horizontal line
        proof {
            assert((width as int) * ((height as int) / 2) <= (width as int) * (height as int))
                by (nonlinear_arith)
                requires
                    width >= 0,
                    height >= 0,
            ;
        }
        let start = width * (height / 2);
        let mut j: usize = 0;
        while j < width
            invariant
                buffer@.len() == width * height,
                width > 2,
                height > 2,
                w == width as int,
                h == height as int,
                width * height <= usize::MAX,
                start == width * (height / 2),
                j <= width,
                forall|r: int, c: int|
                    0 <= r < h && 0 <= c < w ==> pixel_at(buffer@, w, r, c) == (if r == h / 2 && c
                        < j {
                        color
                    } else {
                        0u32
                    }),
        decreases width - j,
        {
            proof {
                lemma_index_bound(w, h, h / 2, j as int);
            }
            let ghost pre = buffer@;
            buffer[start + j] = color;
            proof {
                assert forall|r: int, c: int| 0 <= r < h && 0 <= c < w implies pixel_at(
                    buffer@,
                    w,
                    r,
                    c,
                ) == (if r == h / 2 && c < j + 1 {
                    color
                } else {
                    0u32
                }) by {
                    lemma_index_bound(w, h, r, c);
                    if r * w + c == h / 2 * w + j {
                        lemma_row_col_index(w, r, c, h / 2, j as int);
                    } else {
                        assert(pixel_at(pre, w, r, c) == pre[r * w + c]);
                        assert(buffer@[r * w + c] == pre[r * w + c]);
                    }
                }
            }
            j = j + 1;
        }

        // second horizontal line (for even heights, to keep the cross centered)
        if height % 2 == 0 {
            proof {
                assert((width as int) <= (width as int) * ((height as int) / 2))
                    by (nonlinear_arith)
                    requires
                        width >= 0,
                        height > 2,
                ;
            }
            let start2 = start - width;
            let mut j2: usize = 0;
            while j2 < width
                invariant
                    buffer@.len() == width * height,
                    width > 2,
                    height > 2,
                    w == width as int,
                    h == height as int,
                    width * height <= usize::MAX,
                    height % 2 == 0,
                    start2 == width * (height / 2) - width,
                    j2 <= width,
                    forall|r: int, c: int|
                        0 <= r < h && 0 <= c < w ==> pixel_at(buffer@, w, r, c) == (if r == h / 2
                            || (r == h / 2 - 1 && c < j2) {
                            color
                        } else {
                            0u32
                        }),
            decreases width - j2,
            {
                proof {
                    lemma_index_bound(w, h, h / 2 - 1, j2 as int);
                    assert((h / 2 - 1) * w + j2 == w * (h / 2) - w + j2) by (nonlinear_arith);
                }
                let ghost pre = buffer@;
                buffer[start2 + j2] = color;
                proof {
                    assert forall|r: int, c: int|
                        0 <= r < h && 0 <= c < w implies pixel_at(buffer@, w, r, c) == (if r == h
                        / 2 || (r == h / 2 - 1 && c < j2 + 1) {
                        color
                    } else {
                        0u32
                    }) by {
                        lemma_index_bound(w, h, r, c);
                        if r * w + c == (h / 2 - 1) * w + j2 {
                            lemma_row_col_index(w, r, c, h / 2 - 1, j2 as int);
                        } else {
                            assert(pixel_at(pre, w, r, c) == pre[r * w + c]);
                            assert(buffer@[r * w + c] == pre[r * w + c]);
                        }
                    }
                }
                j2 = j2 + 1;
            }
        }

        // vertical line
        let half_w = width / 2;
        let mut y: usize = 0;
        while y < height
            invariant
                buffer@.len() == width * height,
                width > 2,
                height > 2,
                w == width as int,
                h == height as int,
                width * height <= usize::MAX,
                half_w == width / 2,
                y <= height,
                forall|r: int, c: int|
                    0 <= r < h && 0 <= c < w ==> pixel_at(buffer@, w, r, c) == (if r == h / 2 || (h
                        % 2 == 0 && r == h / 2 - 1) || (c == w / 2 && r < y) {
                        color
                    } else {
                        0u32
                    }),
        decreases height - y,
        {
            proof {
                lemma_index_bound(w, h, y as int, w / 2);
            }
            let ghost pre = buffer@;
            buffer[width * y + half_w] = color;
            proof {
                assert forall|r: int, c: int| 0 <= r < h && 0 <= c < w implies pixel_at(
                    buffer@,
                    w,
                    r,
                    c,
                ) == (if r == h / 2 || (h % 2 == 0 && r == h / 2 - 1) || (c == w / 2 && r < y + 1) {
                    color
                } else {
                    0u32
                }) by {
                    lemma_index_bound(w, h, r, c);
                    if r * w + c == y * w + w / 2 {
                        lemma_row_col_index(w, r, c, y as int, w / 2);
                    } else {
                        assert(pixel_at(pre, w, r, c) == pre[r * w + c]);
                        assert(buffer@[r * w + c] == pre[r * w + c]);
                    }
                }
            }
            y = y + 1;
        }

        // second vertical line (for even widths)
        if width % 2 == 0 {
            let mut y2: usize = 0;
            while y2 < height
                invariant
                    buffer@.len() == width * height,
                    width > 2,
                    height > 2,
                    w == width as int,
                    h == height as int,
                    width * height <= usize::MAX,
                    width % 2 == 0,
                    half_w == width / 2,
                    y2 <= height,
                    forall|r: int, c: int|
                        0 <= r < h && 0 <= c < w ==> pixel_at(buffer@, w, r, c) == (if r == h / 2
                            || (h % 2 == 0 && r == h / 2 - 1) || c == w / 2 || (c == w / 2 - 1 && r
                            < y2) {
                            color
                        } else {
                            0u32
                        }),
            decreases height - y2,
            {
                proof {
                    lemma_index_bound(w, h, y2 as int, w / 2 - 1);
                }
                let ghost pre = buffer@;
                buffer[width * y2 + half_w - 1] = color;
                proof {
                    assert forall|r: int, c: int|
                        0 <= r < h && 0 <= c < w implies pixel_at(buffer@, w, r, c) == (if r == h
                        / 2 || (h % 2 == 0 && r == h / 2 - 1) || c == w / 2 || (c == w / 2 - 1 && r
                        < y2 + 1) {
                        color
                    } else {
                        0u32
                    }) by {
                        lemma_index_bound(w, h, r, c);
                        if r * w + c == y2 * w + (w / 2 - 1) {
                            lemma_row_col_index(w, r, c, y2 as int, w / 2 - 1);
                        } else {
                            assert(pixel_at(pre, w, r, c) == pre[r * w + c]);
                            assert(buffer@[r * w + c] == pre[r * w + c]);
                        }
                    }
                }
                y2 = y2 + 1;
            }
        }
    }
}

// ---------------------------------------------------------------------------
// The application icon
// ---------------------------------------------------------------------------

/// Halve `n` rounding toward zero, the way the icon math centers a pixel.
pub open spec fn half_toward_zero(n: int) -> int {
    if n >= 0 {
        n / 2
    } else {
        -((-n) / 2)
    }
}

/// Whether icon pixel `(x, y)` lies inside the colored circle: fully opaque
/// inside, fully transparent outside.
pub open spec fn icon_mask(size: u32, x: int, y: int) -> u8 {
    let x_term = half_toward_zero(2 * x - size + 1);
    let y_term = half_toward_zero(2 * y - size + 1);
    if x_term * x_term + y_term * y_term < (size * size) as int / 4 {
        255u8
    } else {
        0u8
    }
}

/// One byte of the icon's RGBA data: red and alpha are the circle mask, and
/// a touch of green and blue grows across the circle to spice it up.
pub open spec fn icon_byte(size: u32, x: int, y: int, channel: int) -> u8 {
    let mask = icon_mask(size, x, y);
    if channel == 0 {
        mask
    } else if channel == 1 {
        ((x * 128 / (size as int)) as u8) & mask
    } else if channel == 2 {
        ((y * 128 / (size as int)) as u8) & mask
    } else {
        mask
    }
}

/// The byte of RGBA icon data for channel `c` of pixel `(x, y)`.
pub open spec fn icon_at(data: Seq<u8>, size: u32, x: int, y: int, c: int) -> u8 {
    data[(x * size + y) * 4 + c]
}

/// Generate a simple icon: a red circle with a little green/blue gradient
/// going on, as 8-bit RGBA data. The size is capped well above any icon a
/// tray could want, keeping all the squared distances in range.
pub fn generate_icon_rgba(size: u32) -> (r: Vec<u8>)
    requires
        1 <= size <= 0x1000,
    ensures
        r@.len() == size * size * 4,
        forall|x: int, y: int, c: int|
            0 <= x < size && 0 <= y < size && 0 <= c < 4 ==> icon_at(r@, size, x, y, c)
                == icon_byte(size, x, y, c),
{
    let mut icon_rgba: Vec<u8> = Vec::new();
    let mut x: u32 = 0;
    while x < size
        invariant
            1 <= size <= 0x1000,
            x <= size,
            icon_rgba@.len() == x * size * 4,
            forall|xx: int, yy: int, c: int|
                0 <= xx < x && 0 <= yy < size && 0 <= c < 4 ==> icon_at(icon_rgba@, size, xx, yy, c)
                    == icon_byte(size, xx, yy, c),
        decreases size - x,
    {
        let mut y: u32 = 0;
        while y < size
            invariant
                1 <= size <= 0x1000,
                x < size,
                y <= size,
                icon_rgba@.len() == (x * size + y) * 4,
                forall|xx: int, yy: int, c: int|
                    0 <= xx < x && 0 <= yy < size && 0 <= c < 4 ==> icon_at(
                        icon_rgba@,
                        size,
                        xx,
                        yy,
                        c,
                    ) == icon_byte(size, xx, yy, c),
                forall|yy: int, c: int|
                    0 <= yy < y && 0 <= c < 4 ==> icon_at(icon_rgba@, size, x as int, yy, c)
                        == icon_byte(size, x as int, yy, c),
            decreases size - y,
        {
            proof {
                let nx = 2 * (x as int) - (size as int) + 1;
                if nx >= 0 {
                    vstd::arithmetic::div_mod::lemma_div_nonincreasing(nx, 2);
                } else {
                    vstd::arithmetic::div_mod::lemma_div_nonincreasing(-nx, 2);
                }
                let ny = 2 * (y as int) - (size as int) + 1;
                if ny >= 0 {
                    vstd::arithmetic::div_mod::lemma_div_nonincreasing(ny, 2);
                } else {
                    vstd::arithmetic::div_mod::lemma_div_nonincreasing(-ny, 2);
                }
                assert((size as int) * (size as int) <= 0x100_0000) by (nonlinear_arith)
                    requires
                        1 <= (size as int) <= 0x1000,
                ;
            }
            let x_term = ((x as i32) * 2 - (size as i32) + 1) / 2;
            let y_term = ((y as i32) * 2 - (size as i32) + 1) / 2;
            proof {
                assert(x_term == half_toward_zero(2 * (x as int) - (size as int) + 1));
                assert(y_term == half_toward_zero(2 * (y as int) - (size as int) + 1));
                assert(x_term * x_term + y_term * y_term <= 2 * 0x1000 * 0x1000)
                    by (nonlinear_arith)
                    requires
                        -0x1000 <= x_term as int <= 0x1000,
                        -0x1000 <= y_term as int <= 0x1000,
                ;
                assert(x_term * x_term >= 0 && y_term * y_term >= 0) by (nonlinear_arith);
                assert((x as int) * 128 < (size as int) * 128 && (y as int) * 128 < (size as int)
                    * 128) by (nonlinear_arith)
                    requires
                        0 <= (x as int) < (size as int),
                        0 <= (y as int) < (size as int),
                ;
                vstd::arithmetic::div_mod::lemma_multiply_divide_lt(
                    (x as int) * 128,
                    size as int,
                    128,
                );
                vstd::arithmetic::div_mod::lemma_multiply_divide_lt(
                    (y as int) * 128,
                    size as int,
                    128,
                );
            }
            let distance_squared = x_term * x_term + y_term * y_term;
            let mask: u8 = if distance_squared < ((size * size) as i32) / 4 {
                0xFF
            } else {
                0x00
            };
            let green = (x * 128 / size) as u8;
            let blue = (y * 128 / size) as u8;

            let ghost pre = icon_rgba@;
            icon_rgba.push(mask);
            icon_rgba.push(green & mask);
            icon_rgba.push(blue & mask);
            icon_rgba.push(mask);
            proof {
                assert(mask == icon_mask(size, x as int, y as int));
                assert forall|xx: int, yy: int, c: int|
                    0 <= xx < x && 0 <= yy < size && 0 <= c < 4 implies icon_at(
                    icon_rgba@,
                    size,
                    xx,
                    yy,
                    c,
                ) == icon_byte(size, xx, yy, c) by {
                    assert(icon_at(pre, size, xx, yy, c) == pre[(xx * size + yy) * 4 + c]);
                    assert(0 <= (xx * size + yy) * 4 + c < pre.len()) by (nonlinear_arith)
                        requires
                            0 <= xx < x as int,
                            0 <= yy < size as int,
                            0 <= c < 4,
                            pre.len() == (x as int * size + y as int) * 4,
                    ;
                }
                assert forall|yy: int, c: int|
                    0 <= yy < y + 1 && 0 <= c < 4 implies icon_at(icon_rgba@, size, x as int, yy, c)
                    == icon_byte(size, x as int, yy, c) by {
                    if yy < y {
                        assert(icon_at(pre, size, x as int, yy, c) == pre[(x as int * size + yy) * 4
                            + c]);
                        assert(0 <= (x as int * size + yy) * 4 + c < pre.len())
                            by (nonlinear_arith)
                            requires
                                0 <= yy < y as int,
                                0 <= c < 4,
                                pre.len() == (x as int * size + y as int) * 4,
                                size as int > yy,
                        ;
                    }
                }
            }
            y = y + 1;
        }
        proof {
            assert((x as int + 1) * (size as int) * 4 == (x as int * size + size as int) * 4)
                by (nonlinear_arith);
        }
        x = x + 1;
    }
    icon_rgba
}

// ---------------------------------------------------------------------------
// PNG loading
// ---------------------------------------------------------------------------

/// Failure to turn a PNG byte stream into an image.
#[derive(Debug)]
pub enum PngError {
    /// The byte stream is not a PNG this decoder can read; the text is the
    /// decoder's own description of what went wrong.
    Decode(String),
    /// The stream decoded, but to a color type other than 8-bit RGBA.
    UnsupportedColorType,
}

/// What decoding a PNG byte stream yields: nothing for a stream the decoder
/// rejects, else the first frame's width, height, whether its output color
/// type is 8-bit RGBA, and its raw bytes. Decoding is a function of the
/// bytes alone.
pub uninterp spec fn png_decode_of(bytes: Seq<u8>) -> Option<(u32, u32, bool, Seq<u8>)>;

/// Relies on png::Decoder and png::Reader::next_frame: decode the stream's
/// first frame and report its dimensions, whether the output color type is
/// 8-bit RGBA, and the frame's bytes.
#[verifier::external_body]
fn decode_png(bytes: &[u8]) -> (r: Result<(u32, u32, bool, Vec<u8>), String>)
    ensures
        r is Ok <==> png_decode_of(bytes@) is Some,
        r is Ok ==> Some(((r->Ok_0).0, (r->Ok_0).1, (r->Ok_0).2, (r->Ok_0).3@)) == png_decode_of(
            bytes@,
        ),
{
    let decoder = png::Decoder::new(std::io::Cursor::new(bytes));
    let mut reader = decoder.read_info().map_err(|e| e.to_string())?;
    let size = reader.output_buffer_size().ok_or(String::from("frame too large"))?;
    let mut data = vec![0u8; size];
    let info = reader.next_frame(&mut data).map_err(|e| e.to_string())?;
    data.truncate(info.buffer_size());
    Ok((info.width, info.height, info.color_type == png::ColorType::Rgba, data))
}

/// The `i`th four-byte group of RGBA data, read as a little-endian word.
pub open spec fn rgba_pixel_word(data: Seq<u8>, i: int) -> u32 {
    le_word(data[4 * i], data[4 * i + 1], data[4 * i + 2], data[4 * i + 3])
}

/// Decode a PNG byte stream into an in-memory ARGB image. Succeeds exactly
/// when the stream decodes and its color type is 8-bit RGBA; each four-byte
/// RGBA group of the frame becomes one premultiplied ARGB pixel.
pub fn load_png(bytes: &[u8]) -> (r: Result<Image, PngError>)
    ensures
        r is Ok <==> (png_decode_of(bytes@) is Some && png_decode_of(bytes@)->Some_0.2),
        r is Err ==> (r->Err_0 is Decode <==> png_decode_of(bytes@) is None),
        r is Ok ==> (r->Ok_0).width == png_decode_of(bytes@)->Some_0.0,
        r is Ok ==> (r->Ok_0).height == png_decode_of(bytes@)->Some_0.1,
        r is Ok ==> (r->Ok_0).data@.len() == png_decode_of(bytes@)->Some_0.3.len() as int / 4,
        r is Ok ==> forall|j: int|
            0 <= j < (r->Ok_0).data@.len() ==> (r->Ok_0).data@[j] == argb_from_rgba(
                rgba_pixel_word(png_decode_of(bytes@)->Some_0.3, j),
            ),
{
    match decode_png(bytes) {
        Err(e) => Err(PngError::Decode(e)),
        Ok((width, height, rgba, data)) => {
            if !rgba {
                return Err(PngError::UnsupportedColorType);
            }
            let n = data.len() / 4;
            proof {
                vstd::arithmetic::div_mod::lemma_fundamental_div_mod(data@.len() as int, 4);
                vstd::arithmetic::div_mod::lemma_mod_division_less_than_divisor(
                    data@.len() as int,
                    4,
                );
            }
            let mut pixels: Vec<u32> = Vec::new();
            let mut i: usize = 0;
            while i < n
                invariant
                    data@.len() <= usize::MAX,
                    4 * n <= data@.len(),
                    n == data@.len() as int / 4,
                    i <= n,
                    pixels@.len() == i,
                    forall|j: int|
                        0 <= j < i ==> pixels@[j] == argb_from_rgba(rgba_pixel_word(data@, j)),
                decreases n - i,
            {
                let b0 = data[4 * i];
                let b1 = data[4 * i + 1];
                let b2 = data[4 * i + 2];
                let b3 = data[4 * i + 3];
                let pixel = rgba_to_argb(pack_le_bytes(b0, b1, b2, b3));
                pixels.push(pixel);
                i = i + 1;
            }
            Ok(Image { width, height, data: pixels })
        },
    }
}

// ---------------------------------------------------------------------------
// Rectangle centering
// ---------------------------------------------------------------------------

/// Center of the rectangle with top-left corner `(x, y)` and the given
/// dimensions, rounding each coordinate toward negative infinity.
pub fn rectangle_center(x: i32, y: i32, width: i32, height: i32) -> (r: (i32, i32))
    requires
        i32::MIN <= x + (width as int) / 2 <= i32::MAX,
        i32::MIN <= y + (height as int) / 2 <= i32::MAX,
    ensures
        r.0 == x + (width as int) / 2,
        r.1 == y + (height as int) / 2,
{
    let half_width = width.div_floor_placeholder(2);
    let half_height = height.div_floor_placeholder(2);
    proof {
        assert(half_width == (width as int) / 2) by (nonlinear_arith)
            requires
                2 * (half_width as int) <= width as int,
                (width as int) < 2 * (half_width as int + 1),
        ;
        assert(half_height == (height as int) / 2) by (nonlinear_arith)
            requires
                2 * (half_height as int) <= height as int,
                (height as int) < 2 * (half_height as int + 1),
        ;
    }
    (x + half_width, y + half_height)
}

} // verus!
