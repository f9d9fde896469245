//! Decoding of the pixel formats that RDP and VNC deliver, and the blitting of
//! decoded rectangles into the 0xAARRGGBB screen buffer of a session.

use vstd::prelude::*;
use vstd::arithmetic::div_mod::{lemma_fundamental_div_mod, lemma_fundamental_div_mod_converse};
use vstd::arithmetic::mul::{lemma_mul_inequality, lemma_mul_strict_inequality};

verus! {

/// The pixel format of a decoded RDP bitmap (the formats of the RLE decoder).
#[derive(Clone, Copy, Debug, PartialEq, Eq, Structural)]
pub enum PixelFormat {
    Rgb24,
    Rgb16,
    Rgb15,
    Rgb8,
}

/// How the bytes of a decoded rectangle encode its pixels.
#[derive(Clone, Copy, Debug, PartialEq, Eq, Structural)]
pub enum PixelEncoding {
    /// Four bytes per pixel: blue, green, red, alpha (VNC's BGRA pixel format).
    Bgra32,
    /// Four bytes per pixel: red, green, blue, alpha (graphics pipeline output).
    Rgba32,
    /// An RDP bitmap in the given format, with its bits per pixel.
    Bitmap { bpp: usize, format: PixelFormat },
}

/// A 0xAARRGGBB pixel as the signed value the session callbacks carry.
pub open spec fn spec_pack_argb(a: int, r: int, g: int, b: int) -> i32 {
    (a * 0x1000000 + r * 0x10000 + g * 0x100 + b) as i32
}

pub fn pack_argb(a: u8, r: u8, g: u8, b: u8) -> (p: i32)
    ensures
        p == spec_pack_argb(a as int, r as int, g as int, b as int),
{
    let v: u32 = ((a as u32) << 24) | ((r as u32) << 16) | ((g as u32) << 8) | (b as u32);
    assert(v == (a as u32) * 0x1000000 + (r as u32) * 0x10000 + (g as u32) * 0x100 + (b as u32)) by (bit_vector)
        requires
            v == ((a as u32) << 24) | ((r as u32) << 16) | ((g as u32) << 8) | (b as u32),
    ;
    v as i32
}

/// The pixel at position `p` of a decoded rectangle, if its bytes are present.
pub open spec fn source_pixel(enc: PixelEncoding, data: Seq<u8>, p: int) -> Option<i32> {
    match enc {
        PixelEncoding::Bgra32 => if 4 * p + 3 < data.len() {
            Some(spec_pack_argb(data[4 * p + 3] as int, data[4 * p + 2] as int, data[4 * p + 1] as int, data[4 * p] as int))
        } else {
            None
        },
        PixelEncoding::Rgba32 => if 4 * p + 3 < data.len() {
            Some(spec_pack_argb(data[4 * p + 3] as int, data[4 * p] as int, data[4 * p + 1] as int, data[4 * p + 2] as int))
        } else {
            None
        },
        PixelEncoding::Bitmap { bpp, format } => match format {
            PixelFormat::Rgb24 => if 3 * p + 2 < data.len() {
                Some(spec_pack_argb(0xff, data[3 * p] as int, data[3 * p + 1] as int, data[3 * p + 2] as int))
            } else {
                None
            },
            PixelFormat::Rgb16 => if 2 * p + 1 < data.len() {
                let val = data[2 * p] as int + 256 * data[2 * p + 1] as int;
                Some(spec_pack_argb(0xff, (val / 2048) % 32 * 8, (val / 32) % 64 * 4, val % 32 * 8))
            } else {
                None
            },
            PixelFormat::Rgb15 => if 2 * p + 1 < data.len() {
                let val = data[2 * p] as int + 256 * data[2 * p + 1] as int;
                Some(spec_pack_argb(0xff, (val / 1024) % 32 * 8, (val / 32) % 32 * 8, val % 32 * 8))
            } else {
                None
            },
            PixelFormat::Rgb8 => if bpp == 32 {
                if 4 * p + 2 < data.len() {
                    Some(spec_pack_argb(0xff, data[4 * p + 2] as int, data[4 * p + 1] as int, data[4 * p] as int))
                } else {
                    None
                }
            } else if p < data.len() {
                Some(spec_pack_argb(0xff, data[p] as int, data[p] as int, data[p] as int))
            } else {
                None
            },
        },
    }
}

/// Reads the pixel at position `p` of a decoded rectangle.
pub fn decode_pixel(enc: &PixelEncoding, data: &[u8], p: u64) -> (r: Option<i32>)
    requires
        p <= u32::MAX,
    ensures
        r == source_pixel(*enc, data@, p as int),
{
    let len = data.len() as u64;
    match enc {
        PixelEncoding::Bgra32 => {
            if 4 * p + 3 < len {
                let i = (4 * p) as usize;
                Some(pack_argb(data[i + 3], data[i + 2], data[i + 1], data[i]))
            } else {
                None
            }
        },
        PixelEncoding::Rgba32 => {
            if 4 * p + 3 < len {
                let i = (4 * p) as usize;
                Some(pack_argb(data[i + 3], data[i], data[i + 1], data[i + 2]))
            } else {
                None
            }
        },
        PixelEncoding::Bitmap { bpp, format } => match format {
            PixelFormat::Rgb24 => {
                if 3 * p + 2 < len {
                    let i = (3 * p) as usize;
                    Some(pack_argb(0xff, data[i], data[i + 1], data[i + 2]))
                } else {
                    None
                }
            },
            PixelFormat::Rgb16 => {
                if 2 * p + 1 < len {
                    let i = (2 * p) as usize;
                    let lo = data[i];
                    let hi = data[i + 1];
                    let val: u16 = (lo as u16) | ((hi as u16) << 8);
                    assert(val == lo as u16 + 256 * (hi as u16)) by (bit_vector)
                        requires val == (lo as u16) | ((hi as u16) << 8);
                    let r: u16 = ((val >> 11) & 0x1F) << 3;
                    let g: u16 = ((val >> 5) & 0x3F) << 2;
                    let b: u16 = (val & 0x1F) << 3;
                    assert(r == (val / 2048) % 32 * 8 && g == (val / 32) % 64 * 4 && b == val % 32 * 8) by (bit_vector)
                        requires
                            r == ((val >> 11) & 0x1F) << 3,
                            g == ((val >> 5) & 0x3F) << 2,
                            b == (val & 0x1F) << 3,
                    ;
                    Some(pack_argb(0xff, r as u8, g as u8, b as u8))
                } else {
                    None
                }
            },
            PixelFormat::Rgb15 => {
                if 2 * p + 1 < len {
                    let i = (2 * p) as usize;
                    let lo = data[i];
                    let hi = data[i + 1];
                    let val: u16 = (lo as u16) | ((hi as u16) << 8);
                    assert(val == lo as u16 + 256 * (hi as u16)) by (bit_vector)
                        requires val == (lo as u16) | ((hi as u16) << 8);
                    let r: u16 = ((val >> 10) & 0x1F) << 3;
                    let g: u16 = ((val >> 5) & 0x1F) << 3;
                    let b: u16 = (val & 0x1F) << 3;
                    assert(r == (val / 1024) % 32 * 8 && g == (val / 32) % 32 * 8 && b == val % 32 * 8) by (bit_vector)
                        requires
                            r == ((val >> 10) & 0x1F) << 3,
                            g == ((val >> 5) & 0x1F) << 3,
                            b == (val & 0x1F) << 3,
                    ;
                    Some(pack_argb(0xff, r as u8, g as u8, b as u8))
                } else {
                    None
                }
            },
            PixelFormat::Rgb8 => {
                if *bpp == 32 {
                    if 4 * p + 2 < len {
                        let i = (4 * p) as usize;
                        Some(pack_argb(0xff, data[i + 2], data[i + 1], data[i]))
                    } else {
                        None
                    }
                } else if p < len {
                    let v = data[p as usize];
                    Some(pack_argb(0xff, v, v, v))
                } else {
                    None
                }
            },
        },
    }
}

/// A 16-bit bitmap pixel is RGB565, stored little-endian: red `r` (5 bits) in
/// bits 11..15, green `g` (6 bits) in bits 5..10, blue `b` (5 bits) in bits
/// 0..4. It reads as the opaque 0xAARRGGBB pixel with red `r * 8`, green
/// `g * 4` and blue `b * 8`.
pub proof fn lemma_rgb565_channels(bpp: usize, data: Seq<u8>, p: int, r: int, g: int, b: int)
    requires
        0 <= p,
        2 * p + 1 < data.len(),
        0 <= r < 32,
        0 <= g < 64,
        0 <= b < 32,
        data[2 * p] + 256 * data[2 * p + 1] == r * 2048 + g * 32 + b,
    ensures
        source_pixel(PixelEncoding::Bitmap { bpp, format: PixelFormat::Rgb16 }, data, p) == Some(
            (0xFF00_0000 + r * 8 * 0x10000 + g * 4 * 0x100 + b * 8) as i32,
        ),
{
    let val = data[2 * p] as int + 256 * data[2 * p + 1] as int;
    lemma_fundamental_div_mod_converse(val, 2048, r, g * 32 + b);
    assert(val == (r * 64 + g) * 32 + b) by (nonlinear_arith)
        requires val == r * 2048 + g * 32 + b;
    lemma_fundamental_div_mod_converse(val, 32, r * 64 + g, b);
    lemma_fundamental_div_mod_converse(r * 64 + g, 64, r, g);
    assert(r % 32 == r);
}

/// A 15-bit bitmap pixel is RGB555, stored little-endian: red `r` in bits
/// 10..14, green `g` in bits 5..9, blue `b` in bits 0..4 (5 bits each), the top
/// bit `x` unused. It reads as the opaque 0xAARRGGBB pixel with red `r * 8`,
/// green `g * 8` and blue `b * 8`.
pub proof fn lemma_rgb555_channels(bpp: usize, data: Seq<u8>, p: int, x: int, r: int, g: int, b: int)
    requires
        0 <= p,
        2 * p + 1 < data.len(),
        0 <= x < 2,
        0 <= r < 32,
        0 <= g < 32,
        0 <= b < 32,
        data[2 * p] + 256 * data[2 * p + 1] == x * 32768 + r * 1024 + g * 32 + b,
    ensures
        source_pixel(PixelEncoding::Bitmap { bpp, format: PixelFormat::Rgb15 }, data, p) == Some(
            (0xFF00_0000 + r * 8 * 0x10000 + g * 8 * 0x100 + b * 8) as i32,
        ),
{
    let val = data[2 * p] as int + 256 * data[2 * p + 1] as int;
    assert(val == (x * 32 + r) * 1024 + (g * 32 + b)) by (nonlinear_arith)
        requires val == x * 32768 + r * 1024 + g * 32 + b;
    lemma_fundamental_div_mod_converse(val, 1024, x * 32 + r, g * 32 + b);
    lemma_fundamental_div_mod_converse(x * 32 + r, 32, x, r);
    assert(val == (x * 1024 + r * 32 + g) * 32 + b) by (nonlinear_arith)
        requires val == x * 32768 + r * 1024 + g * 32 + b;
    lemma_fundamental_div_mod_converse(val, 32, x * 1024 + r * 32 + g, b);
    assert(x * 1024 + r * 32 + g == (x * 32 + r) * 32 + g) by (nonlinear_arith);
    lemma_fundamental_div_mod_converse(x * 1024 + r * 32 + g, 32, x * 32 + r, g);
}

/// The byte order of the formats that store one byte per channel: 24-bit
/// bitmaps hold red, green, blue; 32-bit bitmaps and VNC's pixel format hold
/// blue, green, red (then alpha for VNC); graphics-pipeline output holds red,
/// green, blue, alpha; an 8-bit bitmap byte is a grey level. Each reads as the
/// 0xAARRGGBB pixel with those channels (opaque where the format has no alpha).
pub proof fn lemma_byte_formats_channel_order(bpp: usize, data: Seq<u8>, p: int)
    requires
        0 <= p,
    ensures
        3 * p + 2 < data.len() ==> source_pixel(PixelEncoding::Bitmap { bpp, format: PixelFormat::Rgb24 }, data, p)
            == Some((0xFF00_0000 + data[3 * p] * 0x10000 + data[3 * p + 1] * 0x100 + data[3 * p + 2]) as i32),
        bpp == 32 && 4 * p + 2 < data.len() ==> source_pixel(
            PixelEncoding::Bitmap { bpp, format: PixelFormat::Rgb8 },
            data,
            p,
        ) == Some((0xFF00_0000 + data[4 * p + 2] * 0x10000 + data[4 * p + 1] * 0x100 + data[4 * p]) as i32),
        bpp != 32 && p < data.len() ==> source_pixel(PixelEncoding::Bitmap { bpp, format: PixelFormat::Rgb8 }, data, p)
            == Some((0xFF00_0000 + data[p] * 0x10000 + data[p] * 0x100 + data[p]) as i32),
        4 * p + 3 < data.len() ==> source_pixel(PixelEncoding::Bgra32, data, p) == Some(
            (data[4 * p + 3] * 0x100_0000 + data[4 * p + 2] * 0x10000 + data[4 * p + 1] * 0x100 + data[4 * p]) as i32,
        ),
        4 * p + 3 < data.len() ==> source_pixel(PixelEncoding::Rgba32, data, p) == Some(
            (data[4 * p + 3] * 0x100_0000 + data[4 * p] * 0x10000 + data[4 * p + 1] * 0x100 + data[4 * p + 2]) as i32,
        ),
{
}

/// The geometry of a rectangle blitted into a screen of `w` x `h` pixels: its
/// top-left corner, its size, and whether its rows are stored bottom-up.
#[derive(Clone, Copy, Debug, PartialEq, Eq, Structural)]
pub struct Blit {
    pub screen_w: i32,
    pub screen_h: i32,
    pub left: i32,
    pub top: i32,
    pub width: i32,
    pub height: i32,
    pub bottom_up: bool,
}

/// The requirements under which a blit neither overflows nor indexes outside the screen.
pub open spec fn blit_ok(g: Blit, screen_len: int) -> bool {
    &&& g.left + g.width <= i32::MAX
    &&& g.top + g.height <= i32::MAX
    &&& (g.screen_w > 0 && g.screen_h > 0) ==> g.screen_w * g.screen_h <= screen_len && g.screen_w * g.screen_h <= i32::MAX
    &&& (g.width > 0 && g.height > 0) ==> g.width * g.height <= i32::MAX
}

/// The screen row that source row `dy` of the rectangle lands on.
pub open spec fn dest_row(g: Blit, dy: int) -> int {
    if g.bottom_up {
        g.top + (g.height - 1 - dy)
    } else {
        g.top + dy
    }
}

/// The (row, column) of the rectangle that lands on screen index `i`, if any.
pub open spec fn blit_source_pos(g: Blit, i: int) -> Option<(int, int)> {
    let w = g.screen_w as int;
    let h = g.screen_h as int;
    if w > 0 && h > 0 && 0 <= i < w * h {
        let dx = i % w - g.left;
        let ry = i / w - g.top;
        if 0 <= dx < g.width && 0 <= ry < g.height {
            Some((if g.bottom_up { g.height - 1 - ry } else { ry }, dx))
        } else {
            None
        }
    } else {
        None
    }
}

/// The screen pixel at index `i` after the blit: the rectangle's pixel that lands
/// there when its bytes are present, else the previous pixel.
pub open spec fn blit_pixel(old: Seq<i32>, g: Blit, enc: PixelEncoding, data: Seq<u8>, i: int) -> i32 {
    match blit_source_pos(g, i) {
        Some((sy, sx)) => match source_pixel(enc, data, sy * g.width + sx) {
            Some(v) => v,
            None => old[i],
        },
        None => old[i],
    }
}

/// Whether the blit loop has already visited the position of screen index `i`
/// when it is at row `dy`, column `dx`.
pub open spec fn blit_visited(g: Blit, i: int, dy: int, dx: int) -> bool {
    match blit_source_pos(g, i) {
        Some((sy, sx)) => sy < dy || (sy == dy && sx < dx),
        None => false,
    }
}

/// Screen index `j` receives rectangle position (dy, dx) exactly when that position
/// lands inside the screen at row-major index `j`.
proof fn lemma_blit_target(g: Blit, dy: int, dx: int, j: int)
    requires
        0 <= dy < g.height,
        0 <= dx < g.width,
    ensures
        blit_source_pos(g, j) == Some((dy, dx)) <==> ({
            let y = dest_row(g, dy);
            let x = g.left + dx;
            &&& 0 <= x < g.screen_w
            &&& 0 <= y < g.screen_h
            &&& j == y * g.screen_w + x
        }),
{
    let w = g.screen_w as int;
    let h = g.screen_h as int;
    let y = dest_row(g, dy);
    let x = g.left + dx;
    if blit_source_pos(g, j) == Some((dy, dx)) {
        lemma_fundamental_div_mod(j, w);
        assert(j % w == x);
        assert(j / w == y);
        assert(0 <= j % w < w);
        if j / w >= h {
            lemma_mul_inequality(h, j / w, w);
            assert(w * (j / w) >= w * h) by (nonlinear_arith)
                requires j / w >= h, w > 0;
        }
        assert(j == y * w + x) by (nonlinear_arith)
            requires j == w * (j / w) + j % w, j % w == x, j / w == y;
    }
    if 0 <= x < w && 0 <= y < h && j == y * w + x {
        lemma_fundamental_div_mod_converse(j, w, y, x);
        assert(j < w * h) by (nonlinear_arith)
            requires j == y * w + x, 0 <= x < w, 0 <= y < h;
        assert(0 <= j) by (nonlinear_arith)
            requires j == y * w + x, 0 <= x, 0 <= y, w > 0;
    }
}

/// Where a blit puts each rectangle pixel: the screen pixel at (`row`, `col`)
/// inside the rectangle becomes the rectangle's pixel at column `col - left`
/// and row `row - top` (counted from the bottom for bottom-up rectangles),
/// where its bytes are present; every other screen pixel stays as it was.
pub proof fn lemma_blit_places_rect(old: Seq<i32>, g: Blit, enc: PixelEncoding, data: Seq<u8>, row: int, col: int)
    requires
        g.screen_w > 0,
        g.screen_h > 0,
        0 <= row < g.screen_h,
        0 <= col < g.screen_w,
    ensures
        blit_pixel(old, g, enc, data, row * g.screen_w + col) == if g.left <= col < g.left + g.width && g.top <= row
            < g.top + g.height {
            let sy = if g.bottom_up { g.top + g.height - 1 - row } else { row - g.top };
            match source_pixel(enc, data, sy * g.width + (col - g.left)) {
                Some(v) => v,
                None => old[row * g.screen_w + col],
            }
        } else {
            old[row * g.screen_w + col]
        },
{
    let w = g.screen_w as int;
    let i = row * w + col;
    assert(0 <= i < w * g.screen_h) by (nonlinear_arith)
        requires i == row * w + col, 0 <= row < g.screen_h, 0 <= col < w;
    lemma_fundamental_div_mod_converse(i, w, row, col);
}

/// Writes a decoded rectangle into the screen; positions outside the screen and
/// pixels whose bytes are missing are skipped.
pub fn blit_rect(screen: &mut Vec<i32>, g: Blit, enc: &PixelEncoding, data: &[u8])
    requires
        blit_ok(g, old(screen)@.len() as int),
    ensures
        final(screen)@.len() == old(screen)@.len(),
        forall|i: int| 0 <= i < old(screen)@.len() ==> final(screen)@[i] == blit_pixel(old(screen)@, g, *enc, data@, i),
{
    let ghost old_screen = screen@;
    let w = g.screen_w;
    let h = g.screen_h;
    let mut dy: i32 = 0;
    while dy < g.height
        invariant
            blit_ok(g, old_screen.len() as int),
            w == g.screen_w,
            h == g.screen_h,
            0 <= dy,
            dy <= g.height || g.height <= 0,
            screen@.len() == old_screen.len(),
            forall|i: int| 0 <= i < old_screen.len() ==> #[trigger] screen@[i] == if blit_visited(g, i, dy as int, 0) {
                blit_pixel(old_screen, g, *enc, data@, i)
            } else {
                old_screen[i]
            },
        decreases g.height - dy,
    {
        let dest_y: i32 = if g.bottom_up { g.top + (g.height - 1 - dy) } else { g.top + dy };
        let mut dx: i32 = 0;
        while dx < g.width
            invariant
                blit_ok(g, old_screen.len() as int),
                w == g.screen_w,
                h == g.screen_h,
                0 <= dy < g.height,
                dest_y == dest_row(g, dy as int),
                0 <= dx,
                dx <= g.width || g.width <= 0,
                screen@.len() == old_screen.len(),
                forall|i: int| 0 <= i < old_screen.len() ==> #[trigger] screen@[i] == if blit_visited(g, i, dy as int, dx as int) {
                    blit_pixel(old_screen, g, *enc, data@, i)
                } else {
                    old_screen[i]
                },
            decreases g.width - dx,
        {
            let dest_x: i32 = g.left + dx;
            let ghost before = screen@;
            if 0 <= dest_y && dest_y < h && 0 <= dest_x && dest_x < w {
                assert((dest_y as int) * (w as int) + (dest_x as int) < (w as int) * (h as int)) by (nonlinear_arith)
                    requires 0 <= dest_y < h, 0 <= dest_x < w;
                assert(0 <= (dest_y as int) * (w as int)) by (nonlinear_arith)
                    requires 0 <= dest_y, 0 < w;
                let idx: i32 = dest_y * w + dest_x;
                assert((dy as int) * (g.width as int) + (dx as int) < (g.width as int) * (g.height as int)) by (nonlinear_arith)
                    requires 0 <= dy < g.height, 0 <= dx < g.width;
                assert(0 <= (dy as int) * (g.width as int)) by (nonlinear_arith)
                    requires 0 <= dy, 0 < g.width;
                let p: u64 = (dy as u64) * (g.width as u64) + (dx as u64);
                proof {
                    lemma_blit_target(g, dy as int, dx as int, idx as int);
                }
                match decode_pixel(enc, data, p) {
                    Some(v) => {
                        screen.set(idx as usize, v);
                    },
                    None => {},
                }
                assert forall|i: int| 0 <= i < old_screen.len() implies #[trigger] screen@[i] == if blit_visited(
                    g,
                    i,
                    dy as int,
                    dx as int + 1,
                ) {
                    blit_pixel(old_screen, g, *enc, data@, i)
                } else {
                    old_screen[i]
                } by {
                    lemma_blit_target(g, dy as int, dx as int, i);
                }
            } else {
                assert forall|i: int| 0 <= i < old_screen.len() implies #[trigger] screen@[i] == if blit_visited(
                    g,
                    i,
                    dy as int,
                    dx as int + 1,
                ) {
                    blit_pixel(old_screen, g, *enc, data@, i)
                } else {
                    old_screen[i]
                } by {
                    lemma_blit_target(g, dy as int, dx as int, i);
                }
            }
            dx = dx + 1;
        }
        assert forall|i: int| 0 <= i < old_screen.len() implies #[trigger] screen@[i] == if blit_visited(
            g,
            i,
            dy as int + 1,
            0,
        ) {
            blit_pixel(old_screen, g, *enc, data@, i)
        } else {
            old_screen[i]
        } by {
            assert(blit_visited(g, i, dy as int + 1, 0) == blit_visited(g, i, dy as int, dx as int));
        }
        dy = dy + 1;
    }
    assert forall|i: int| 0 <= i < old_screen.len() implies #[trigger] screen@[i] == blit_pixel(old_screen, g, *enc, data@, i) by {
        if blit_source_pos(g, i) is None {
        } else {
            assert(blit_visited(g, i, dy as int, 0));
        }
    }
}

/// A rectangle of a VNC framebuffer update.
#[derive(Clone, Copy, Debug, PartialEq, Eq, Structural)]
pub struct VncRect {
    pub x: u16,
    pub y: u16,
    pub width: u16,
    pub height: u16,
}

/// An RDP rectangle whose right and bottom edges are inside it.
#[derive(Clone, Copy, Debug, PartialEq, Eq, Structural)]
pub struct InclusiveRect {
    pub left: u16,
    pub top: u16,
    pub right: u16,
    pub bottom: u16,
}

/// An RDP rectangle whose right and bottom edges are just outside it.
#[derive(Clone, Copy, Debug, PartialEq, Eq, Structural)]
pub struct ExclusiveRect {
    pub left: u16,
    pub top: u16,
    pub right: u16,
    pub bottom: u16,
}

impl InclusiveRect {
    /// The rectangle's size is representable: its edges are ordered and it is at most 65535 wide and high.
    pub open spec fn valid(&self) -> bool {
        self.left <= self.right && self.right - self.left < 0xFFFF && self.top <= self.bottom && self.bottom - self.top
            < 0xFFFF
    }

    pub open spec fn spec_width(&self) -> int {
        self.right - self.left + 1
    }

    pub open spec fn spec_height(&self) -> int {
        self.bottom - self.top + 1
    }

    pub fn width(&self) -> (r: u16)
        requires
            self.valid(),
        ensures
            r == self.spec_width(),
    {
        self.right - self.left + 1
    }

    pub fn height(&self) -> (r: u16)
        requires
            self.valid(),
        ensures
            r == self.spec_height(),
    {
        self.bottom - self.top + 1
    }
}

impl ExclusiveRect {
    /// The rectangle's edges are ordered.
    pub open spec fn valid(&self) -> bool {
        self.left <= self.right && self.top <= self.bottom
    }

    pub open spec fn spec_width(&self) -> int {
        self.right - self.left
    }

    pub open spec fn spec_height(&self) -> int {
        self.bottom - self.top
    }

    pub fn width(&self) -> (r: u16)
        requires
            self.valid(),
        ensures
            r == self.spec_width(),
    {
        self.right - self.left
    }

    pub fn height(&self) -> (r: u16)
        requires
            self.valid(),
        ensures
            r == self.spec_height(),
    {
        self.bottom - self.top
    }
}

/// The screen of `screen_w` x `screen_h` pixels fits the buffer and its indices fit an `i32`.
pub open spec fn screen_ok(screen_len: int, screen_w: i32, screen_h: i32) -> bool {
    (screen_w > 0 && screen_h > 0) ==> screen_w * screen_h <= screen_len && screen_w * screen_h <= i32::MAX
}

/// The rectangle's pixel positions fit an `i32`.
pub open spec fn rect_size_ok(width: int, height: int) -> bool {
    width * height <= i32::MAX
}

/// The blit geometry of a VNC raw rectangle.
pub open spec fn vnc_rect_blit(screen_w: i32, screen_h: i32, rect: VncRect) -> Blit {
    Blit {
        screen_w,
        screen_h,
        left: rect.x as i32,
        top: rect.y as i32,
        width: rect.width as i32,
        height: rect.height as i32,
        bottom_up: false,
    }
}

/// Copies a decoded VNC raw rectangle (BGRA bytes) into the screen.
pub fn copy_vnc_rect_to_screen(
    screen_pixels: &mut Vec<i32>,
    screen_w: i32,
    screen_h: i32,
    rect: &VncRect,
    decoded_data: &[u8],
)
    requires
        screen_ok(old(screen_pixels)@.len() as int, screen_w, screen_h),
        rect_size_ok(rect.width as int, rect.height as int),
    ensures
        final(screen_pixels)@.len() == old(screen_pixels)@.len(),
        forall|i: int| 0 <= i < old(screen_pixels)@.len() ==> final(screen_pixels)@[i] == blit_pixel(
            old(screen_pixels)@,
            vnc_rect_blit(screen_w, screen_h, *rect),
            PixelEncoding::Bgra32,
            decoded_data@,
            i,
        ),
{
    let g = Blit {
        screen_w,
        screen_h,
        left: rect.x as i32,
        top: rect.y as i32,
        width: rect.width as i32,
        height: rect.height as i32,
        bottom_up: false,
    };
    blit_rect(screen_pixels, g, &PixelEncoding::Bgra32, decoded_data);
}

/// The blit geometry of a graphics-pipeline bitmap update.
pub open spec fn gfx_rect_blit(screen_w: i32, screen_h: i32, rect: InclusiveRect) -> Blit {
    Blit {
        screen_w,
        screen_h,
        left: rect.left as i32,
        top: rect.top as i32,
        width: rect.spec_width() as i32,
        height: rect.spec_height() as i32,
        bottom_up: false,
    }
}

/// Copies a decoded graphics-pipeline bitmap (RGBA bytes) into the screen.
pub fn copy_gfx_bitmap_to_screen(
    screen_pixels: &mut Vec<i32>,
    screen_w: i32,
    screen_h: i32,
    rect: &InclusiveRect,
    decoded_data: &[u8],
)
    requires
        rect.valid(),
        screen_ok(old(screen_pixels)@.len() as int, screen_w, screen_h),
        rect_size_ok(rect.spec_width(), rect.spec_height()),
    ensures
        final(screen_pixels)@.len() == old(screen_pixels)@.len(),
        forall|i: int| 0 <= i < old(screen_pixels)@.len() ==> final(screen_pixels)@[i] == blit_pixel(
            old(screen_pixels)@,
            gfx_rect_blit(screen_w, screen_h, *rect),
            PixelEncoding::Rgba32,
            decoded_data@,
            i,
        ),
{
    let g = Blit {
        screen_w,
        screen_h,
        left: rect.left as i32,
        top: rect.top as i32,
        width: rect.width() as i32,
        height: rect.height() as i32,
        bottom_up: false,
    };
    blit_rect(screen_pixels, g, &PixelEncoding::Rgba32, decoded_data);
}

/// The blit geometry of a 64 x 64 progressive-codec tile.
pub open spec fn tile_blit(screen_w: i32, screen_h: i32, tile_x: i32, tile_y: i32) -> Blit {
    Blit { screen_w, screen_h, left: tile_x, top: tile_y, width: 64, height: 64, bottom_up: false }
}

/// Copies a decoded 64 x 64 tile (RGBA bytes) into the screen at (`tile_x`, `tile_y`).
pub fn copy_tile_to_screen(
    screen_pixels: &mut Vec<i32>,
    screen_w: i32,
    screen_h: i32,
    tile_x: i32,
    tile_y: i32,
    tile_rgba: &[u8],
)
    requires
        screen_ok(old(screen_pixels)@.len() as int, screen_w, screen_h),
        tile_x + 64 <= i32::MAX,
        tile_y + 64 <= i32::MAX,
    ensures
        final(screen_pixels)@.len() == old(screen_pixels)@.len(),
        forall|i: int| 0 <= i < old(screen_pixels)@.len() ==> final(screen_pixels)@[i] == blit_pixel(
            old(screen_pixels)@,
            tile_blit(screen_w, screen_h, tile_x, tile_y),
            PixelEncoding::Rgba32,
            tile_rgba@,
            i,
        ),
{
    let g = Blit { screen_w, screen_h, left: tile_x, top: tile_y, width: 64, height: 64, bottom_up: false };
    blit_rect(screen_pixels, g, &PixelEncoding::Rgba32, tile_rgba);
}

/// The blit geometry of a fast-path bitmap update, whose rows are stored bottom-up.
pub open spec fn bitmap_blit(screen_w: i32, screen_h: i32, rect: InclusiveRect) -> Blit {
    Blit {
        screen_w,
        screen_h,
        left: rect.left as i32,
        top: rect.top as i32,
        width: rect.spec_width() as i32,
        height: rect.spec_height() as i32,
        bottom_up: true,
    }
}

/// Copies a decoded fast-path bitmap (bottom-up rows, in the given format) into the screen.
pub fn copy_bitmap_to_screen(
    screen_pixels: &mut Vec<i32>,
    screen_w: i32,
    screen_h: i32,
    rect: &InclusiveRect,
    decoded_data: &[u8],
    bpp: usize,
    format: PixelFormat,
)
    requires
        rect.valid(),
        screen_ok(old(screen_pixels)@.len() as int, screen_w, screen_h),
        rect_size_ok(rect.spec_width(), rect.spec_height()),
    ensures
        final(screen_pixels)@.len() == old(screen_pixels)@.len(),
        forall|i: int| 0 <= i < old(screen_pixels)@.len() ==> final(screen_pixels)@[i] == blit_pixel(
            old(screen_pixels)@,
            bitmap_blit(screen_w, screen_h, *rect),
            PixelEncoding::Bitmap { bpp, format },
            decoded_data@,
            i,
        ),
{
    let g = Blit {
        screen_w,
        screen_h,
        left: rect.left as i32,
        top: rect.top as i32,
        width: rect.width() as i32,
        height: rect.height() as i32,
        bottom_up: true,
    };
    blit_rect(screen_pixels, g, &PixelEncoding::Bitmap { bpp, format }, decoded_data);
}

/// The blit geometry of a surface-bits command.
pub open spec fn surface_blit(screen_w: i32, screen_h: i32, rect: ExclusiveRect) -> Blit {
    Blit {
        screen_w,
        screen_h,
        left: rect.left as i32,
        top: rect.top as i32,
        width: rect.spec_width() as i32,
        height: rect.spec_height() as i32,
        bottom_up: false,
    }
}

/// Copies decoded surface bits (top-down rows, in the given format) into the screen.
pub fn copy_surface_to_screen(
    screen_pixels: &mut Vec<i32>,
    screen_w: i32,
    screen_h: i32,
    rect: &ExclusiveRect,
    decoded_data: &[u8],
    bpp: usize,
    format: PixelFormat,
)
    requires
        rect.valid(),
        screen_ok(old(screen_pixels)@.len() as int, screen_w, screen_h),
        rect_size_ok(rect.spec_width(), rect.spec_height()),
    ensures
        final(screen_pixels)@.len() == old(screen_pixels)@.len(),
        forall|i: int| 0 <= i < old(screen_pixels)@.len() ==> final(screen_pixels)@[i] == blit_pixel(
            old(screen_pixels)@,
            surface_blit(screen_w, screen_h, *rect),
            PixelEncoding::Bitmap { bpp, format },
            decoded_data@,
            i,
        ),
{
    let g = Blit {
        screen_w,
        screen_h,
        left: rect.left as i32,
        top: rect.top as i32,
        width: rect.width() as i32,
        height: rect.height() as i32,
        bottom_up: false,
    };
    blit_rect(screen_pixels, g, &PixelEncoding::Bitmap { bpp, format }, decoded_data);
}

/// For a screen copy from `src` to `dst` (of `dst`'s size): the screen index whose old
/// pixel ends up at screen index `i`, if `i` is overwritten.
pub open spec fn copy_source_index(w: int, h: int, dst: VncRect, src: VncRect, i: int) -> Option<int> {
    if w > 0 && h > 0 && 0 <= i < w * h {
        let dx = i % w - dst.x;
        let dy = i / w - dst.y;
        let sx = src.x + dx;
        let sy = src.y + dy;
        if 0 <= dx < dst.width && 0 <= dy < dst.height && 0 <= sx < w && 0 <= sy < h {
            Some(sy * w + sx)
        } else {
            None
        }
    } else {
        None
    }
}

/// The screen after copying the `src` area onto the `dst` area: every overwritten
/// pixel takes the value its source had before the copy, as if through a snapshot.
pub open spec fn copied_pixel(old: Seq<i32>, w: int, h: int, dst: VncRect, src: VncRect, i: int) -> i32 {
    match copy_source_index(w, h, dst, src, i) {
        Some(k) => old[k],
        None => old[i],
    }
}

/// The rectangle position (row, column) whose destination is screen index `i`, if its source is on screen.
pub open spec fn copy_pos(w: int, h: int, dst: VncRect, src: VncRect, i: int) -> Option<(int, int)> {
    match copy_source_index(w, h, dst, src, i) {
        Some(_) => Some((i / w - dst.y, i % w - dst.x)),
        None => None,
    }
}

/// The visiting order of the copy loop: rows bottom-up when moving down, columns
/// right-to-left when moving right, so that no source is overwritten before it is read.
pub open spec fn copy_order(dst: VncRect, src: VncRect, dy: int, dx: int) -> (int, int) {
    (
        if dst.y > src.y { dst.height - 1 - dy } else { dy },
        if dst.x > src.x { dst.width - 1 - dx } else { dx },
    )
}

/// Whether screen index `i` has already been overwritten when the copy loop is at
/// visiting step (`ty`, `tx`).
pub open spec fn copy_visited(w: int, h: int, dst: VncRect, src: VncRect, i: int, ty: int, tx: int) -> bool {
    match copy_pos(w, h, dst, src, i) {
        Some((py, px)) => {
            let (r, c) = copy_order(dst, src, py, px);
            r < ty || (r == ty && c < tx)
        },
        None => false,
    }
}

proof fn lemma_index_decompose(w: int, h: int, j: int)
    requires
        w > 0,
        h > 0,
        0 <= j < w * h,
    ensures
        0 <= j % w < w,
        0 <= j / w < h,
        j == (j / w) * w + j % w,
{
    lemma_fundamental_div_mod(j, w);
    assert(j == (j / w) * w + j % w) by (nonlinear_arith)
        requires j == w * (j / w) + j % w;
    assert(0 <= j % w < w) by (nonlinear_arith)
        requires w > 0;
    assert(0 <= j / w) by (nonlinear_arith)
        requires 0 <= j, w > 0;
    assert(j / w < h) by (nonlinear_arith)
        requires j == (j / w) * w + j % w, 0 <= j % w, j < w * h, w > 0;
}

proof fn lemma_index_compose(w: int, h: int, x: int, y: int)
    requires
        0 <= x < w,
        0 <= y < h,
    ensures
        0 <= y * w + x < w * h,
        (y * w + x) % w == x,
        (y * w + x) / w == y,
{
    lemma_fundamental_div_mod_converse(y * w + x, w, y, x);
    assert(0 <= y * w + x < w * h) by (nonlinear_arith)
        requires 0 <= x < w, 0 <= y < h;
}

/// The invariant of the copy loop at visiting step (`ty`, `tx`).
pub open spec fn copy_progress(
    cur: Seq<i32>,
    old: Seq<i32>,
    w: int,
    h: int,
    dst: VncRect,
    src: VncRect,
    ty: int,
    tx: int,
) -> bool {
    &&& cur.len() == old.len()
    &&& forall|i: int| 0 <= i < old.len() ==> #[trigger] cur[i] == if copy_visited(w, h, dst, src, i, ty, tx) {
        copied_pixel(old, w, h, dst, src, i)
    } else {
        old[i]
    }
}

/// Copies the `src` area of the screen onto the `dst` area (a VNC CopyRect), with
/// memmove semantics: overlapping areas are copied as if from a snapshot.
pub fn copy_vnc_screen_rect(screen_pixels: &mut Vec<i32>, screen_w: i32, screen_h: i32, dst: &VncRect, src: &VncRect)
    requires
        screen_ok(old(screen_pixels)@.len() as int, screen_w, screen_h),
    ensures
        final(screen_pixels)@.len() == old(screen_pixels)@.len(),
        forall|i: int| 0 <= i < old(screen_pixels)@.len() ==> final(screen_pixels)@[i] == copied_pixel(
            old(screen_pixels)@,
            screen_w as int,
            screen_h as int,
            *dst,
            *src,
            i,
        ),
{
    let ghost old_screen = screen_pixels@;
    let ghost w = screen_w as int;
    let ghost h = screen_h as int;
    let rect_w = dst.width as i32;
    let rect_h = dst.height as i32;
    let rev_y = dst.y > src.y;
    let rev_x = dst.x > src.x;
    let mut ty: i32 = 0;
    while ty < rect_h
        invariant
            screen_ok(old_screen.len() as int, screen_w, screen_h),
            w == screen_w,
            h == screen_h,
            rect_w == dst.width,
            rect_h == dst.height,
            rev_y == (dst.y > src.y),
            rev_x == (dst.x > src.x),
            0 <= ty <= rect_h,
            copy_progress(screen_pixels@, old_screen, w, h, *dst, *src, ty as int, 0),
        decreases rect_h - ty,
    {
        let dy: i32 = if rev_y { rect_h - 1 - ty } else { ty };
        let src_y: i32 = src.y as i32 + dy;
        let dest_y: i32 = dst.y as i32 + dy;
        let mut tx: i32 = 0;
        while tx < rect_w
            invariant
                screen_ok(old_screen.len() as int, screen_w, screen_h),
                w == screen_w,
                h == screen_h,
                rect_w == dst.width,
                rect_h == dst.height,
                rev_y == (dst.y > src.y),
                rev_x == (dst.x > src.x),
                0 <= ty < rect_h,
                dy == (if rev_y { rect_h - 1 - ty } else { ty as int }),
                src_y == src.y + dy,
                dest_y == dst.y + dy,
                0 <= tx <= rect_w,
                copy_progress(screen_pixels@, old_screen, w, h, *dst, *src, ty as int, tx as int),
            decreases rect_w - tx,
        {
            let dx: i32 = if rev_x { rect_w - 1 - tx } else { tx };
            let src_x: i32 = src.x as i32 + dx;
            let dest_x: i32 = dst.x as i32 + dx;
            assert(copy_order(*dst, *src, dy as int, dx as int) == (ty as int, tx as int));
            if 0 <= src_y && src_y < screen_h && 0 <= dest_y && dest_y < screen_h && 0 <= src_x && src_x < screen_w
                && 0 <= dest_x && dest_x < screen_w {
                proof {
                    lemma_index_compose(w, h, src_x as int, src_y as int);
                    lemma_index_compose(w, h, dest_x as int, dest_y as int);
                }
                let src_idx: i32 = src_y * screen_w + src_x;
                let dest_idx: i32 = dest_y * screen_w + dest_x;
                let ghost d = dest_idx as int;
                let ghost k = src_idx as int;
                assert(copy_source_index(w, h, *dst, *src, d) == Some(k));
                assert(copy_pos(w, h, *dst, *src, d) == Some((dy as int, dx as int)));
                // The source has not been overwritten yet (or it is the destination itself).
                assert(!copy_visited(w, h, *dst, *src, k, ty as int, tx as int));
                assert(screen_pixels@[k] == old_screen[k]);
                let v = screen_pixels[src_idx as usize];
                let ghost before = screen_pixels@;
                screen_pixels.set(dest_idx as usize, v);
                assert forall|i: int| 0 <= i < old_screen.len() implies #[trigger] screen_pixels@[i] == if copy_visited(
                    w,
                    h,
                    *dst,
                    *src,
                    i,
                    ty as int,
                    tx + 1,
                ) {
                    copied_pixel(old_screen, w, h, *dst, *src, i)
                } else {
                    old_screen[i]
                } by {
                    if i != d {
                        assert(screen_pixels@[i] == before[i]);
                        if let Some((py, px)) = copy_pos(w, h, *dst, *src, i) {
                            if copy_order(*dst, *src, py, px) == (ty as int, tx as int) {
                                lemma_index_decompose(w, h, i);
                                assert(py == dy && px == dx);
                                assert(i == dest_y * w + dest_x);
                            }
                        }
                    }
                }
            } else {
                assert forall|i: int| 0 <= i < old_screen.len() implies #[trigger] screen_pixels@[i] == if copy_visited(
                    w,
                    h,
                    *dst,
                    *src,
                    i,
                    ty as int,
                    tx + 1,
                ) {
                    copied_pixel(old_screen, w, h, *dst, *src, i)
                } else {
                    old_screen[i]
                } by {
                    if let Some((py, px)) = copy_pos(w, h, *dst, *src, i) {
                        if copy_order(*dst, *src, py, px) == (ty as int, tx as int) {
                            lemma_index_decompose(w, h, i);
                            assert(py == dy && px == dx);
                        }
                    }
                }
            }
            tx = tx + 1;
        }
        assert forall|i: int| 0 <= i < old_screen.len() implies #[trigger] screen_pixels@[i] == if copy_visited(
            w,
            h,
            *dst,
            *src,
            i,
            ty + 1,
            0,
        ) {
            copied_pixel(old_screen, w, h, *dst, *src, i)
        } else {
            old_screen[i]
        } by {
            assert(copy_visited(w, h, *dst, *src, i, ty + 1, 0) == copy_visited(w, h, *dst, *src, i, ty as int, tx as int));
        }
        ty = ty + 1;
    }
    assert forall|i: int| 0 <= i < old_screen.len() implies #[trigger] screen_pixels@[i] == copied_pixel(
        old_screen,
        w,
        h,
        *dst,
        *src,
        i,
    ) by {
        if let Some(p) = copy_pos(w, h, *dst, *src, i) {
            assert(copy_visited(w, h, *dst, *src, i, ty as int, 0));
        }
    }
}

} // verus!
