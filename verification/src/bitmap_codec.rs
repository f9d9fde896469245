//! Decoding the rectangles of RDP bitmap updates and surface-bits commands
//! with the codecs of `ironrdp_graphics` (interleaved RLE and the planar RDP 6.0
//! codec), and drawing them into the session's framebuffer.

use vstd::prelude::*;

use ironrdp_graphics::rdp6::BitmapStreamDecoder;
use ironrdp_graphics::rle::RlePixelFormat;

use crate::connection::{bitmap_decoding, spec_bitmap_decoding, surface_decoding, spec_surface_decoding, BitmapDecoding};
use crate::pixels::{
    bitmap_blit, blit_pixel, copy_bitmap_to_screen, copy_surface_to_screen, rect_size_ok, screen_ok, surface_blit,
    Blit, ExclusiveRect, InclusiveRect, PixelEncoding, PixelFormat,
};

verus! {

#[verifier::external_type_specification]
#[verifier::external_body]
pub struct ExBitmapStreamDecoder(BitmapStreamDecoder);

/// The 24-bit RGB pixels that `BitmapStreamDecoder::decode_bitmap_stream_to_rgb24`
/// produces for a planar (RDP 6.0) bitmap stream of the given size, or `None`
/// when it rejects the stream.
pub uninterp spec fn planar_decoded(data: Seq<u8>, width: usize, height: usize) -> Option<Seq<u8>>;

/// The pixels that `ironrdp_graphics::rle::decompress` produces for an
/// interleaved RLE bitmap of the given size and depth, or `None` when it
/// rejects the data.
pub uninterp spec fn interleaved_decoded(data: Seq<u8>, width: usize, height: usize, bpp: usize) -> Option<Seq<u8>>;

/// The pixel format interleaved RLE decodes to at each supported depth.
pub open spec fn spec_rle_format(bpp: usize) -> PixelFormat {
    if bpp == 24 {
        PixelFormat::Rgb24
    } else if bpp == 16 {
        PixelFormat::Rgb16
    } else if bpp == 15 {
        PixelFormat::Rgb15
    } else {
        PixelFormat::Rgb8
    }
}

/// Bytes per pixel of interleaved RLE output at each supported depth.
pub open spec fn rle_bytes_per_pixel(bpp: usize) -> int {
    if bpp == 24 {
        3
    } else if bpp == 16 || bpp == 15 {
        2
    } else {
        1
    }
}

/// Trusted wrapper of `BitmapStreamDecoder::default`: a planar decoder with no
/// buffered data; nothing is stated of the opaque value.
#[verifier::external_body]
fn default_planar_decoder() -> BitmapStreamDecoder {
    BitmapStreamDecoder::default()
}

/// The planar decoder a session keeps for its bitmap updates. Its results
/// depend on the stream alone (see `planar_decoded`), so one decoder serves
/// every update of the session.
pub fn new_planar_decoder() -> BitmapStreamDecoder {
    default_planar_decoder()
}

/// Trusted wrapper of `BitmapStreamDecoder::decode_bitmap_stream_to_rgb24`
/// into a fresh buffer. The decoder only keeps a scratch buffer that it resizes
/// and overwrites, so the result depends on the stream and size alone.
#[verifier::external_body]
fn planar_decode(decoder: &mut BitmapStreamDecoder, data: &[u8], width: usize, height: usize) -> (r: Option<Vec<u8>>)
    ensures
        match r {
            Some(d) => planar_decoded(data@, width, height) == Some(d@),
            None => planar_decoded(data@, width, height) is None,
        },
{
    let mut dst = Vec::new();
    match decoder.decode_bitmap_stream_to_rgb24(data, &mut dst, width, height) {
        Ok(()) => Some(dst),
        Err(_) => None,
    }
}

/// Trusted wrapper of `ironrdp_graphics::rle::decompress` into a fresh buffer.
/// As its source shows, it rejects an empty size, a side over 8192 pixels and a
/// depth other than 8, 15, 16 or 24, reports the format of the depth, and fills
/// exactly width × height pixels of that format.
#[verifier::external_body]
fn rle_decompress(data: &[u8], width: usize, height: usize, bpp: usize) -> (r: Option<(Vec<u8>, PixelFormat)>)
    ensures
        match r {
            Some((d, f)) => {
                &&& interleaved_decoded(data@, width, height, bpp) == Some(d@)
                &&& f == spec_rle_format(bpp)
                &&& d@.len() == rle_bytes_per_pixel(bpp) * width * height
            },
            None => interleaved_decoded(data@, width, height, bpp) is None,
        },
        (width == 0 || height == 0 || width > 8192 || height > 8192 || !(bpp == 8 || bpp == 15 || bpp == 16
            || bpp == 24)) ==> r is None,
{
    let mut dst = Vec::new();
    match ironrdp_graphics::rle::decompress(data, &mut dst, width, height, bpp) {
        Ok(RlePixelFormat::Rgb24) => Some((dst, PixelFormat::Rgb24)),
        Ok(RlePixelFormat::Rgb16) => Some((dst, PixelFormat::Rgb16)),
        Ok(RlePixelFormat::Rgb15) => Some((dst, PixelFormat::Rgb15)),
        Ok(RlePixelFormat::Rgb8) => Some((dst, PixelFormat::Rgb8)),
        Err(_) => None,
    }
}

/// The pixels and format of a rectangle decoded the given way, or `None` when
/// its codec rejects it or it is skipped.
pub open spec fn spec_decode_rect(
    decoding: BitmapDecoding,
    data: Seq<u8>,
    width: usize,
    height: usize,
    bpp: usize,
) -> Option<(Seq<u8>, PixelFormat)> {
    match decoding {
        BitmapDecoding::Raw(f) => Some((data, f)),
        BitmapDecoding::Planar => match planar_decoded(data, width, height) {
            Some(d) => Some((d, PixelFormat::Rgb24)),
            None => None,
        },
        BitmapDecoding::InterleavedRle => match interleaved_decoded(data, width, height, bpp) {
            Some(d) => Some((d, spec_rle_format(bpp))),
            None => None,
        },
        BitmapDecoding::Skip => None,
    }
}

/// Decodes one rectangle's data the given way.
pub fn decode_rect(
    decoder: &mut BitmapStreamDecoder,
    decoding: BitmapDecoding,
    data: &[u8],
    width: usize,
    height: usize,
    bpp: usize,
) -> (r: Option<(Vec<u8>, PixelFormat)>)
    ensures
        match r {
            Some((d, f)) => spec_decode_rect(decoding, data@, width, height, bpp) == Some((d@, f)),
            None => spec_decode_rect(decoding, data@, width, height, bpp) is None,
        },
{
    match decoding {
        BitmapDecoding::Raw(f) => {
            let mut d: Vec<u8> = Vec::new();
            d.extend_from_slice(data);
            Some((d, f))
        },
        BitmapDecoding::Planar => match planar_decode(decoder, data, width, height) {
            Some(d) => Some((d, PixelFormat::Rgb24)),
            None => None,
        },
        BitmapDecoding::InterleavedRle => rle_decompress(data, width, height, bpp),
        BitmapDecoding::Skip => None,
    }
}

/// One rectangle of a fast-path bitmap update.
#[derive(Clone, Debug)]
pub struct BitmapRect {
    /// Where it goes on the screen.
    pub rectangle: InclusiveRect,
    pub width: u16,
    pub height: u16,
    pub bits_per_pixel: u16,
    pub compressed: bool,
    pub data: Vec<u8>,
}

/// One surface-bits command.
#[derive(Clone, Debug)]
pub struct SurfaceBits {
    /// Where it goes on the screen.
    pub destination: ExclusiveRect,
    pub width: u16,
    pub height: u16,
    pub bpp: u8,
    pub codec_id: u8,
    pub data: Vec<u8>,
}

/// The screen after a blit of decoded pixels.
pub open spec fn blit_screen(screen: Seq<i32>, g: Blit, enc: PixelEncoding, data: Seq<u8>) -> Seq<i32> {
    Seq::new(screen.len(), |i: int| blit_pixel(screen, g, enc, data, i))
}

/// The screen after one bitmap rectangle: drawn bottom-up when its codec
/// accepts it, unchanged otherwise.
pub open spec fn bitmap_rect_screen(screen: Seq<i32>, w: i32, h: i32, r: BitmapRect) -> Seq<i32> {
    let bpp = r.bits_per_pixel as usize;
    match spec_decode_rect(spec_bitmap_decoding(r.compressed, r.bits_per_pixel), r.data@, r.width as usize, r.height as usize, bpp) {
        Some((d, f)) => blit_screen(screen, bitmap_blit(w, h, r.rectangle), PixelEncoding::Bitmap { bpp, format: f }, d),
        None => screen,
    }
}

/// The screen after the first `n` rectangles of a bitmap update.
pub open spec fn bitmap_update_screen(screen: Seq<i32>, w: i32, h: i32, rects: Seq<BitmapRect>, n: int) -> Seq<i32>
    decreases n,
{
    if n <= 0 {
        screen
    } else {
        bitmap_rect_screen(bitmap_update_screen(screen, w, h, rects, n - 1), w, h, rects[n - 1])
    }
}

/// The screen after one surface-bits command.
pub open spec fn surface_bits_screen(screen: Seq<i32>, w: i32, h: i32, s: SurfaceBits) -> Seq<i32> {
    let bpp = s.bpp as usize;
    match spec_decode_rect(spec_surface_decoding(s.codec_id, s.bpp), s.data@, s.width as usize, s.height as usize, bpp) {
        Some((d, f)) => blit_screen(screen, surface_blit(w, h, s.destination), PixelEncoding::Bitmap { bpp, format: f }, d),
        None => screen,
    }
}

/// The screen after the first `n` surface-bits commands.
pub open spec fn surface_commands_screen(screen: Seq<i32>, w: i32, h: i32, cmds: Seq<SurfaceBits>, n: int) -> Seq<i32>
    decreases n,
{
    if n <= 0 {
        screen
    } else {
        surface_bits_screen(surface_commands_screen(screen, w, h, cmds, n - 1), w, h, cmds[n - 1])
    }
}

/// Draws every rectangle of a fast-path bitmap update, in order.
pub fn apply_bitmap_update(
    screen: &mut Vec<i32>,
    screen_w: i32,
    screen_h: i32,
    decoder: &mut BitmapStreamDecoder,
    rects: &Vec<BitmapRect>,
)
    requires
        screen_ok(old(screen)@.len() as int, screen_w, screen_h),
        forall|k: int| 0 <= k < rects@.len() ==> (#[trigger] rects@[k]).rectangle.valid() && rect_size_ok(
            rects@[k].rectangle.spec_width(),
            rects@[k].rectangle.spec_height(),
        ),
    ensures
        final(screen)@ == bitmap_update_screen(old(screen)@, screen_w, screen_h, rects@, rects@.len() as int),
{
    let mut k: usize = 0;
    while k < rects.len()
        invariant
            0 <= k <= rects.len(),
            screen@.len() == old(screen)@.len(),
            screen_ok(old(screen)@.len() as int, screen_w, screen_h),
            forall|j: int| 0 <= j < rects@.len() ==> (#[trigger] rects@[j]).rectangle.valid() && rect_size_ok(
                rects@[j].rectangle.spec_width(),
                rects@[j].rectangle.spec_height(),
            ),
            screen@ == bitmap_update_screen(old(screen)@, screen_w, screen_h, rects@, k as int),
        decreases rects.len() - k,
    {
        let r = &rects[k];
        let decoding = bitmap_decoding(r.compressed, r.bits_per_pixel);
        let bpp = r.bits_per_pixel as usize;
        let ghost before = screen@;
        match decode_rect(decoder, decoding, r.data.as_slice(), r.width as usize, r.height as usize, bpp) {
            Some((d, f)) => {
                copy_bitmap_to_screen(screen, screen_w, screen_h, &r.rectangle, d.as_slice(), bpp, f);
                assert(screen@ =~= blit_screen(
                    before,
                    bitmap_blit(screen_w, screen_h, r.rectangle),
                    PixelEncoding::Bitmap { bpp, format: f },
                    d@,
                ));
            },
            None => {},
        }
        k += 1;
    }
}

/// Draws every surface-bits command, in order.
pub fn apply_surface_commands(
    screen: &mut Vec<i32>,
    screen_w: i32,
    screen_h: i32,
    decoder: &mut BitmapStreamDecoder,
    cmds: &Vec<SurfaceBits>,
)
    requires
        screen_ok(old(screen)@.len() as int, screen_w, screen_h),
        forall|k: int| 0 <= k < cmds@.len() ==> (#[trigger] cmds@[k]).destination.valid() && rect_size_ok(
            cmds@[k].destination.spec_width(),
            cmds@[k].destination.spec_height(),
        ),
    ensures
        final(screen)@ == surface_commands_screen(old(screen)@, screen_w, screen_h, cmds@, cmds@.len() as int),
{
    let mut k: usize = 0;
    while k < cmds.len()
        invariant
            0 <= k <= cmds.len(),
            screen@.len() == old(screen)@.len(),
            screen_ok(old(screen)@.len() as int, screen_w, screen_h),
            forall|j: int| 0 <= j < cmds@.len() ==> (#[trigger] cmds@[j]).destination.valid() && rect_size_ok(
                cmds@[j].destination.spec_width(),
                cmds@[j].destination.spec_height(),
            ),
            screen@ == surface_commands_screen(old(screen)@, screen_w, screen_h, cmds@, k as int),
        decreases cmds.len() - k,
    {
        let s = &cmds[k];
        let decoding = surface_decoding(s.codec_id, s.bpp);
        let bpp = s.bpp as usize;
        let ghost before = screen@;
        match decode_rect(decoder, decoding, s.data.as_slice(), s.width as usize, s.height as usize, bpp) {
            Some((d, f)) => {
                copy_surface_to_screen(screen, screen_w, screen_h, &s.destination, d.as_slice(), bpp, f);
                assert(screen@ =~= blit_screen(
                    before,
                    surface_blit(screen_w, screen_h, s.destination),
                    PixelEncoding::Bitmap { bpp, format: f },
                    d@,
                ));
            },
            None => {},
        }
        k += 1;
    }
}

} // verus!
