//! The graphics-pipeline surface of an RDP session: resets, uncompressed
//! bitmap updates, and RemoteFX progressive tiles decoded with the codecs of
//! `ironrdp_graphics` (entropy decoding, sub-band reconstruction,
//! dequantization, inverse DWT and YCbCr to RGBA conversion).

use vstd::prelude::*;
use vstd::arithmetic::div_mod::lemma_fundamental_div_mod_converse;
use vstd::arithmetic::power2::pow2;

use ironrdp_graphics::color_conversion::YCbCrBuffer;
use ironrdp_pdu::codecs::rfx::progressive::{decode_progressive_stream, ProgressiveBlock, ProgressiveRegion, ProgressiveTile};
use ironrdp_pdu::codecs::rfx::{EntropyAlgorithm, Quant};

use crate::config::{push_chars, push_str};
use crate::pixels::{
    blit_pixel, copy_gfx_bitmap_to_screen, copy_tile_to_screen, gfx_rect_blit, rect_size_ok, screen_ok, tile_blit,
    InclusiveRect, PixelEncoding,
};
use crate::text::{chars_of, string_from_chars};

verus! {

/// The ten sub-band quantization values of one component, in the order of a
/// classic RemoteFX quant table.
#[derive(Clone, Copy, Debug, PartialEq, Eq, Structural)]
pub struct QuantValues {
    pub ll3: u8,
    pub lh3: u8,
    pub hl3: u8,
    pub hh3: u8,
    pub lh2: u8,
    pub hl2: u8,
    pub hh2: u8,
    pub lh1: u8,
    pub hl1: u8,
    pub hh1: u8,
}

/// A first-pass (simple or first) progressive tile.
#[derive(Clone, Debug)]
pub struct TileData {
    pub quant_idx_y: u8,
    pub quant_idx_cb: u8,
    pub quant_idx_cr: u8,
    pub x_idx: u16,
    pub y_idx: u16,
    pub y_data: Vec<u8>,
    pub cb_data: Vec<u8>,
    pub cr_data: Vec<u8>,
}

/// A progressive region: its quant tables, flags and tiles (`None` for
/// refinement tiles, which are not drawn).
#[derive(Clone, Debug)]
pub struct RegionData {
    pub quant_vals: Vec<QuantValues>,
    pub flags: u8,
    pub tiles: Vec<Option<TileData>>,
}

pub ghost struct TileView {
    pub quant_idx_y: u8,
    pub quant_idx_cb: u8,
    pub quant_idx_cr: u8,
    pub x_idx: u16,
    pub y_idx: u16,
    pub y_data: Seq<u8>,
    pub cb_data: Seq<u8>,
    pub cr_data: Seq<u8>,
}

pub ghost struct RegionView {
    pub quant_vals: Seq<QuantValues>,
    pub flags: u8,
    pub tiles: Seq<Option<TileView>>,
}

impl View for TileData {
    type V = TileView;

    open spec fn view(&self) -> TileView {
        TileView {
            quant_idx_y: self.quant_idx_y,
            quant_idx_cb: self.quant_idx_cb,
            quant_idx_cr: self.quant_idx_cr,
            x_idx: self.x_idx,
            y_idx: self.y_idx,
            y_data: self.y_data@,
            cb_data: self.cb_data@,
            cr_data: self.cr_data@,
        }
    }
}

pub open spec fn tile_opt_view(t: Option<TileData>) -> Option<TileView> {
    match t {
        Some(d) => Some(d@),
        None => None,
    }
}

impl View for RegionData {
    type V = RegionView;

    open spec fn view(&self) -> RegionView {
        RegionView {
            quant_vals: self.quant_vals@,
            flags: self.flags,
            tiles: self.tiles@.map_values(|t: Option<TileData>| tile_opt_view(t)),
        }
    }
}

/// Whether a region uses the reduce-extrapolate inverse DWT (flag bit 0x01).
pub open spec fn spec_uses_reduce_extrapolate(flags: u8) -> bool {
    flags & 1u8 != 0
}

pub fn uses_reduce_extrapolate(flags: u8) -> (r: bool)
    ensures
        r == spec_uses_reduce_extrapolate(flags),
{
    flags & 1u8 != 0
}

/// Quantization values fit a four-bit field, as the stream encodes them.
pub open spec fn quant_in_range(q: QuantValues) -> bool {
    q.ll3 <= 15 && q.lh3 <= 15 && q.hl3 <= 15 && q.hh3 <= 15 && q.lh2 <= 15 && q.hl2 <= 15 && q.hh2 <= 15
        && q.lh1 <= 15 && q.hl1 <= 15 && q.hh1 <= 15
}

/// The coefficients `ironrdp_graphics::rlgr::decode` (RLGR1) writes into a
/// zeroed 4096-coefficient buffer for a component's data, or the `Debug` text
/// of its error.
pub uninterp spec fn rlgr1_result(data: Seq<u8>) -> Result<Seq<i16>, Seq<char>>;

/// Sub-band reconstruction of the LL3 band: each coefficient plus the
/// reconstructed one before it, wrapping in 16 bits.
pub open spec fn wrapping_prefix_sum(s: Seq<i16>) -> Seq<i16>
    decreases s.len(),
{
    if s.len() <= 1 {
        s
    } else {
        let p = wrapping_prefix_sum(s.drop_last());
        p.push((p.last() + s.last()) as i16)
    }
}

proof fn lemma_prefix_sum_len(s: Seq<i16>)
    ensures
        wrapping_prefix_sum(s).len() == s.len(),
    decreases s.len(),
{
    if s.len() > 1 {
        lemma_prefix_sum_len(s.drop_last());
    }
}

/// The quant value of the sub-band that coefficient `i` of a 64 x 64 tile
/// belongs to: HL1, LH1, HH1 (1024 each), HL2, LH2, HH2 (256 each), then HL3,
/// LH3, HH3 and LL3 (64 each).
pub open spec fn subband_quant(q: QuantValues, i: int) -> u8 {
    if i < 1024 {
        q.hl1
    } else if i < 2048 {
        q.lh1
    } else if i < 3072 {
        q.hh1
    } else if i < 3328 {
        q.hl2
    } else if i < 3584 {
        q.lh2
    } else if i < 3840 {
        q.hh2
    } else if i < 3904 {
        q.hl3
    } else if i < 3968 {
        q.lh3
    } else if i < 4032 {
        q.hh3
    } else {
        q.ll3
    }
}

/// Dequantization: each coefficient shifted left (in 16 bits) by its
/// sub-band's quant value minus one, when that is positive.
pub open spec fn dequantized(c: Seq<i16>, q: QuantValues) -> Seq<i16> {
    Seq::new(
        c.len(),
        |i: int| {
            let f = subband_quant(q, i) - 1;
            if f > 0 {
                (c[i] * pow2(f as nat)) as i16
            } else {
                c[i]
            }
        },
    )
}

/// What `ironrdp_graphics::dwt::decode` makes of a component's coefficients.
pub uninterp spec fn dwt_result(coeffs: Seq<i16>) -> Seq<i16>;

/// What `ironrdp_graphics::dwt_extrapolate::decode` makes of a component's coefficients.
pub uninterp spec fn dwt_extrapolate_result(coeffs: Seq<i16>) -> Seq<i16>;


/// The most tile data the entropy decoder takes: its run and remainder sums
/// (up to 1024 per bit read, plus less than 1024) then stay within `u32`.
pub const MAX_RLGR_DATA: usize = 0x7FFFF;

/// Trusted wrapper of `ironrdp_graphics::rlgr::decode` in RLGR1 mode into a
/// zeroed buffer of 4096 coefficients; the source rejects empty input. Its
/// `u32` run and remainder sums grow by at most 1024 per input bit, so they
/// cannot overflow (a panic in builds with overflow checks) for data of at
/// most `MAX_RLGR_DATA` bytes, the only data admitted.
#[verifier::external_body]
fn rlgr1_decode(data: &[u8]) -> (r: Result<Vec<i16>, String>)
    requires
        data@.len() <= MAX_RLGR_DATA,
    ensures
        match r {
            Ok(c) => rlgr1_result(data@) == Ok::<Seq<i16>, Seq<char>>(c@) && c@.len() == 4096,
            Err(e) => rlgr1_result(data@) == Err::<Seq<i16>, Seq<char>>(e@),
        },
        data@.len() == 0 ==> r is Err,
{
    let mut out = vec![0i16; 4096];
    match ironrdp_graphics::rlgr::decode(EntropyAlgorithm::Rlgr1, data, &mut out) {
        Ok(()) => Ok(out),
        Err(e) => Err(format!("{:?}", e)),
    }
}

/// Trusted wrapper of `ironrdp_graphics::subband_reconstruction::decode` on
/// the last 64 coefficients, which it rewrites in place: each becomes itself
/// plus the new value before it (`overflowing_add`).
#[verifier::external_body]
fn subband_reconstruct(c: &mut Vec<i16>)
    requires
        old(c)@.len() == 4096,
    ensures
        final(c)@ == old(c)@.subrange(0, 4032) + wrapping_prefix_sum(old(c)@.subrange(4032, 4096)),
{
    ironrdp_graphics::subband_reconstruction::decode(&mut c[4032..]);
}

/// Trusted wrapper of `ironrdp_graphics::quantization::decode`, which shifts
/// the coefficients of each sub-band left in place by its quant value minus
/// one when that is positive (by less than 16 bits for four-bit quant values).
#[verifier::external_body]
fn dequantize(c: &mut Vec<i16>, q: QuantValues)
    requires
        old(c)@.len() == 4096,
        quant_in_range(q),
    ensures
        final(c)@ == dequantized(old(c)@, q),
        final(c)@.len() == 4096,
{
    let quant = Quant {
        ll3: q.ll3,
        lh3: q.lh3,
        hl3: q.hl3,
        hh3: q.hh3,
        lh2: q.lh2,
        hl2: q.hl2,
        hh2: q.hh2,
        lh1: q.lh1,
        hl1: q.hl1,
        hh1: q.hh1,
    };
    ironrdp_graphics::quantization::decode(c, &quant);
}

/// Trusted wrapper of `ironrdp_graphics::dwt::decode` with a fresh scratch
/// buffer (which the transform writes before it reads it).
#[verifier::external_body]
fn inverse_dwt(c: &mut Vec<i16>)
    requires
        old(c)@.len() == 4096,
    ensures
        final(c)@ == dwt_result(old(c)@),
        final(c)@.len() == 4096,
{
    let mut temp = vec![0i16; 4096];
    ironrdp_graphics::dwt::decode(c, &mut temp);
}

/// Trusted wrapper of `ironrdp_graphics::dwt_extrapolate::decode` with a
/// fresh scratch buffer of 4096 elements.
#[verifier::external_body]
fn inverse_dwt_extrapolate(c: &mut Vec<i16>)
    requires
        old(c)@.len() == 4096,
    ensures
        final(c)@ == dwt_extrapolate_result(old(c)@),
        final(c)@.len() == 4096,
{
    let mut temp = vec![0i16; 4096];
    ironrdp_graphics::dwt_extrapolate::decode(c, &mut temp);
}

/// Whether `i` lies in the range of `i32`.
pub open spec fn fits_i32(i: int) -> bool {
    -0x8000_0000 <= i <= 0x7fff_ffff
}

/// The integer steps of the YCbCr to RGB conversion of one pixel (as the `yuv`
/// crate computes it for RemoteFX: `y + 4096` in 16 bits, then 32-bit sums with
/// the 16-bit fixed-point coefficients 91915, 46818, 22526 and 115992) all stay
/// in their types' range.
pub open spec fn yuv_pixel_ok(y: i16, cb: i16, cr: i16) -> bool {
    let yy = (y + 4096) * 65536;
    &&& y + 4096 <= 0x7fff
    &&& fits_i32(91915 * cr)
    &&& fits_i32(yy + 91915 * cr)
    &&& fits_i32(yy - 46818 * cr)
    &&& fits_i32(yy - 46818 * cr - 22526 * cb)
    &&& fits_i32(115992 * cb)
    &&& fits_i32(yy + 115992 * cb)
}

/// One 8-bit channel: the 32-bit fixed-point value shifted right by 21 bits
/// (rounding down), clamped to 0..=255.
pub open spec fn channel(v: int) -> u8 {
    let s = v / 0x20_0000;
    if s > 255 {
        255u8
    } else if s < 0 {
        0u8
    } else {
        s as u8
    }
}

/// The R, G, B and A bytes of one pixel.
pub open spec fn rgba_pixel(y: i16, cb: i16, cr: i16) -> Seq<u8> {
    let yy = (y + 4096) * 65536;
    seq![channel(yy + 91915 * cr), channel(yy - 46818 * cr - 22526 * cb), channel(yy + 115992 * cb), 255u8]
}

/// The 64 x 64 RGBA tile of three component planes.
pub open spec fn spec_ycbcr_rgba(y: Seq<i16>, cb: Seq<i16>, cr: Seq<i16>) -> Seq<u8> {
    Seq::new(16384, |k: int| rgba_pixel(y[k / 4], cb[k / 4], cr[k / 4])[k % 4])
}

/// Three 4096-value planes whose every pixel converts without overflow.
pub open spec fn planes_convertible(y: Seq<i16>, cb: Seq<i16>, cr: Seq<i16>) -> bool {
    &&& y.len() == 4096
    &&& cb.len() == 4096
    &&& cr.len() == 4096
    &&& forall|i: int| 0 <= i < 4096 ==> yuv_pixel_ok(#[trigger] y[i], cb[i], cr[i])
}

/// Trusted wrapper of `ironrdp_graphics::color_conversion::ycbcr_to_rgba`
/// into a 64 x 64 RGBA buffer. That function converts with
/// `yuv::rdp_yuv444_to_rgba`, whose arithmetic overflows (a panic in builds
/// with overflow checks) unless every pixel meets `yuv_pixel_ok`, so only such
/// planes are admitted. For 4096-value planes and this buffer its size checks
/// pass, and it writes every pixel by the fixed-point formula of `rgba_pixel`.
#[verifier::external_body]
fn ycbcr_to_rgba(y: &Vec<i16>, cb: &Vec<i16>, cr: &Vec<i16>) -> (r: Result<Vec<u8>, String>)
    requires
        planes_convertible(y@, cb@, cr@),
    ensures
        r is Ok,
        match r {
            Ok(t) => t@ == spec_ycbcr_rgba(y@, cb@, cr@),
            Err(_) => true,
        },
{
    let mut out = vec![0u8; 64 * 64 * 4];
    match ironrdp_graphics::color_conversion::ycbcr_to_rgba(YCbCrBuffer { y, cb, cr }, &mut out) {
        Ok(()) => Ok(out),
        Err(e) => Err(format!("{:?}", e)),
    }
}

/// A component after entropy decoding: sub-band reconstruction of LL3,
/// dequantization, then the inverse DWT the region asks for.
pub open spec fn component_pipeline(c: Seq<i16>, q: QuantValues, reduce: bool) -> Seq<i16> {
    let c1 = c.subrange(0, 4032) + wrapping_prefix_sum(c.subrange(4032, 4096));
    let c2 = dequantized(c1, q);
    if reduce {
        dwt_extrapolate_result(c2)
    } else {
        dwt_result(c2)
    }
}

/// The RGBA pixels of a first-pass tile, or the error that stops decoding:
/// the three quant indices are checked first (Y, Cb, Cr), then the three
/// components are entropy-decoded in that order, and planes on which the
/// colour conversion would overflow are refused before it runs.
pub open spec fn spec_tile_rgba(t: TileView, quants: Seq<QuantValues>, flags: u8) -> Result<Seq<u8>, Seq<char>> {
    if t.quant_idx_y >= quants.len() {
        Err("Quant index Y out of range"@)
    } else if t.quant_idx_cb >= quants.len() {
        Err("Quant index Cb out of range"@)
    } else if t.quant_idx_cr >= quants.len() {
        Err("Quant index Cr out of range"@)
    } else {
        match component_result(t.y_data) {
            Err(e) => Err("RLGR Y decode failed: "@ + e),
            Ok(y0) => match component_result(t.cb_data) {
                Err(e) => Err("RLGR Cb decode failed: "@ + e),
                Ok(cb0) => match component_result(t.cr_data) {
                    Err(e) => Err("RLGR Cr decode failed: "@ + e),
                    Ok(cr0) => {
                        let reduce = spec_uses_reduce_extrapolate(flags);
                        let y = component_pipeline(y0, quants[t.quant_idx_y as int], reduce);
                        let cb = component_pipeline(cb0, quants[t.quant_idx_cb as int], reduce);
                        let cr = component_pipeline(cr0, quants[t.quant_idx_cr as int], reduce);
                        if !planes_convertible(y, cb, cr) {
                            Err("ycbcr_to_rgba failed: plane value out of range"@)
                        } else {
                            Ok(spec_ycbcr_rgba(y, cb, cr))
                        }
                    },
                },
            },
        }
    }
}

fn prefixed(prefix: &str, e: String) -> (r: String)
    ensures
        r@ == prefix@ + e@,
{
    let mut out: Vec<char> = Vec::new();
    push_str(&mut out, prefix);
    push_str(&mut out, e.as_str());
    string_from_chars(&out)
}

/// The coefficients of a component's entropy-coded data, or the error: data
/// longer than the entropy decoder takes is refused before it runs.
pub open spec fn component_result(data: Seq<u8>) -> Result<Seq<i16>, Seq<char>> {
    if data.len() > MAX_RLGR_DATA {
        Err("tile data too long"@)
    } else {
        rlgr1_result(data)
    }
}

fn decode_component(data: &Vec<u8>) -> (r: Result<Vec<i16>, String>)
    ensures
        match r {
            Ok(c) => component_result(data@) == Ok::<Seq<i16>, Seq<char>>(c@) && c@.len() == 4096,
            Err(e) => component_result(data@) == Err::<Seq<i16>, Seq<char>>(e@),
        },
{
    if data.len() > MAX_RLGR_DATA {
        return Err(String::from_str("tile data too long"));
    }
    rlgr1_decode(data.as_slice())
}

fn finish_component(c: &mut Vec<i16>, q: QuantValues, reduce: bool)
    requires
        old(c)@.len() == 4096,
        quant_in_range(q),
    ensures
        final(c)@ == component_pipeline(old(c)@, q, reduce),
        final(c)@.len() == 4096,
{
    proof {
        lemma_prefix_sum_len(old(c)@.subrange(4032, 4096));
    }
    subband_reconstruct(c);
    dequantize(c, q);
    if reduce {
        inverse_dwt_extrapolate(c);
    } else {
        inverse_dwt(c);
    }
}

fn yuv_pixel_in_range(y: i16, cb: i16, cr: i16) -> (r: bool)
    ensures
        r == yuv_pixel_ok(y, cb, cr),
{
    let yv = y as i64;
    let u = cb as i64;
    let v = cr as i64;
    let yy = (yv + 4096) * 65536;
    let lo: i64 = -0x8000_0000;
    let hi: i64 = 0x7fff_ffff;
    yv + 4096 <= 0x7fff && lo <= 91915 * v && 91915 * v <= hi && lo <= yy + 91915 * v && yy + 91915 * v <= hi
        && lo <= yy - 46818 * v && yy - 46818 * v <= hi && lo <= yy - 46818 * v - 22526 * u
        && yy - 46818 * v - 22526 * u <= hi && lo <= 115992 * u && 115992 * u <= hi && lo <= yy + 115992 * u
        && yy + 115992 * u <= hi
}

fn planes_in_range(y: &Vec<i16>, cb: &Vec<i16>, cr: &Vec<i16>) -> (r: bool)
    ensures
        r == planes_convertible(y@, cb@, cr@),
{
    if y.len() != 4096 || cb.len() != 4096 || cr.len() != 4096 {
        return false;
    }
    let mut i: usize = 0;
    while i < 4096
        invariant
            i <= 4096,
            y@.len() == 4096 && cb@.len() == 4096 && cr@.len() == 4096,
            forall|j: int| 0 <= j < i ==> yuv_pixel_ok(#[trigger] y@[j], cb@[j], cr@[j]),
        decreases 4096 - i,
    {
        if !yuv_pixel_in_range(y[i], cb[i], cr[i]) {
            return false;
        }
        i += 1;
    }
    true
}

/// Decodes one first-pass tile to RGBA pixels.
pub fn decode_tile(t: &TileData, quants: &Vec<QuantValues>, flags: u8) -> (r: Result<Vec<u8>, String>)
    requires
        forall|i: int| 0 <= i < quants@.len() ==> quant_in_range(#[trigger] quants@[i]),
    ensures
        match r {
            Ok(p) => spec_tile_rgba(t@, quants@, flags) == Ok::<Seq<u8>, Seq<char>>(p@),
            Err(e) => spec_tile_rgba(t@, quants@, flags) == Err::<Seq<u8>, Seq<char>>(e@),
        },
{
    if t.quant_idx_y as usize >= quants.len() {
        return Err(String::from_str("Quant index Y out of range"));
    }
    if t.quant_idx_cb as usize >= quants.len() {
        return Err(String::from_str("Quant index Cb out of range"));
    }
    if t.quant_idx_cr as usize >= quants.len() {
        return Err(String::from_str("Quant index Cr out of range"));
    }
    let mut y = match decode_component(&t.y_data) {
        Ok(c) => c,
        Err(e) => return Err(prefixed("RLGR Y decode failed: ", e)),
    };
    let mut cb = match decode_component(&t.cb_data) {
        Ok(c) => c,
        Err(e) => return Err(prefixed("RLGR Cb decode failed: ", e)),
    };
    let mut cr = match decode_component(&t.cr_data) {
        Ok(c) => c,
        Err(e) => return Err(prefixed("RLGR Cr decode failed: ", e)),
    };
    let reduce = uses_reduce_extrapolate(flags);
    finish_component(&mut y, quants[t.quant_idx_y as usize], reduce);
    finish_component(&mut cb, quants[t.quant_idx_cb as usize], reduce);
    finish_component(&mut cr, quants[t.quant_idx_cr as usize], reduce);
    if !planes_in_range(&y, &cb, &cr) {
        return Err(String::from_str("ycbcr_to_rgba failed: plane value out of range"));
    }
    match ycbcr_to_rgba(&y, &cb, &cr) {
        Ok(rgba) => Ok(rgba),
        Err(e) => Err(prefixed("ycbcr_to_rgba failed: ", e)),
    }
}

/// The screen position of a tile index (64 pixels per tile, computed in
/// 16 bits as the stream's tile indices are).
pub open spec fn tile_origin(idx: u16) -> i32 {
    ((idx as int * 64) % 65536) as i32
}

/// The screen after a blit of decoded pixels.
pub open spec fn blit_screen(screen: Seq<i32>, g: crate::pixels::Blit, enc: PixelEncoding, data: Seq<u8>) -> Seq<i32> {
    Seq::new(screen.len(), |i: int| blit_pixel(screen, g, enc, data, i))
}

/// Drawing the tiles of one region in order; the first tile that fails to
/// decode stops drawing with its error.
pub open spec fn draw_tiles(
    screen: Seq<i32>,
    w: i32,
    h: i32,
    quants: Seq<QuantValues>,
    flags: u8,
    tiles: Seq<Option<TileView>>,
) -> (Seq<i32>, Option<Seq<char>>)
    decreases tiles.len(),
{
    if tiles.len() == 0 {
        (screen, None)
    } else {
        match tiles[0] {
            None => draw_tiles(screen, w, h, quants, flags, tiles.drop_first()),
            Some(t) => match spec_tile_rgba(t, quants, flags) {
                Err(e) => (screen, Some(e)),
                Ok(rgba) => draw_tiles(
                    blit_screen(
                        screen,
                        tile_blit(w, h, tile_origin(t.x_idx), tile_origin(t.y_idx)),
                        PixelEncoding::Rgba32,
                        rgba,
                    ),
                    w,
                    h,
                    quants,
                    flags,
                    tiles.drop_first(),
                ),
            },
        }
    }
}

/// A decodable first-pass tile with indices (`x_idx`, `y_idx`) is drawn with
/// its top-left corner at screen column `64 * x_idx` and row `64 * y_idx`: the
/// screen pixel at (`row`, `col`) inside that 64 x 64 square becomes the tile's
/// pixel at (`row - 64 * y_idx`, `col - 64 * x_idx`), read from its RGBA bytes,
/// and every other screen pixel stays as it was.
pub proof fn lemma_tile_lands_at_its_indices(
    screen: Seq<i32>,
    w: i32,
    h: i32,
    quants: Seq<QuantValues>,
    flags: u8,
    t: TileView,
)
    requires
        w > 0,
        h > 0,
        w * h <= i32::MAX,
        w * h <= screen.len(),
        t.x_idx < 1024,
        t.y_idx < 1024,
        spec_tile_rgba(t, quants, flags) is Ok,
    ensures
        ({
            let rgba = spec_tile_rgba(t, quants, flags)->Ok_0;
            let (s, e) = draw_tiles(screen, w, h, quants, flags, seq![Some(t)]);
            &&& e is None
            &&& s.len() == screen.len()
            &&& forall|row: int, col: int|
                0 <= row < h && 0 <= col < w ==> #[trigger] s[row * w + col] == if 64 * t.x_idx <= col < 64 * t.x_idx + 64
                    && 64 * t.y_idx <= row < 64 * t.y_idx + 64 {
                    let k = (row - 64 * t.y_idx) * 64 + (col - 64 * t.x_idx);
                    (rgba[4 * k + 3] * 0x100_0000 + rgba[4 * k] * 0x10000 + rgba[4 * k + 1] * 0x100 + rgba[4
                        * k + 2]) as i32
                } else {
                    screen[row * w + col]
                }
        }),
{
    reveal_with_fuel(draw_tiles, 2);
    let rgba = spec_tile_rgba(t, quants, flags)->Ok_0;
    let tiles = seq![Some(t)];
    assert(tiles.drop_first() =~= Seq::<Option<TileView>>::empty());
    let x0 = 64 * t.x_idx as int;
    let y0 = 64 * t.y_idx as int;
    assert(tile_origin(t.x_idx) == x0);
    assert(tile_origin(t.y_idx) == y0);
    let g = tile_blit(w, h, tile_origin(t.x_idx), tile_origin(t.y_idx));
    let s = blit_screen(screen, g, PixelEncoding::Rgba32, rgba);
    assert(draw_tiles(screen, w, h, quants, flags, tiles) == (s, None::<Seq<char>>));
    assert(rgba.len() == 16384);
    assert forall|row: int, col: int| 0 <= row < h && 0 <= col < w implies #[trigger] s[row * w + col] == if x0 <= col
        < x0 + 64 && y0 <= row < y0 + 64 {
        let k = (row - y0) * 64 + (col - x0);
        (rgba[4 * k + 3] * 0x100_0000 + rgba[4 * k] * 0x10000 + rgba[4 * k + 1] * 0x100 + rgba[4 * k + 2]) as i32
    } else {
        screen[row * w + col]
    } by {
        let i = row * w + col;
        assert(0 <= i < w * h) by (nonlinear_arith)
            requires i == row * w + col, 0 <= row < h, 0 <= col < w;
        lemma_fundamental_div_mod_converse(i, w as int, row, col);
        if x0 <= col < x0 + 64 && y0 <= row < y0 + 64 {
            let k = (row - y0) * 64 + (col - x0);
            assert(0 <= k < 4096) by (nonlinear_arith)
                requires k == (row - y0) * 64 + (col - x0), y0 <= row < y0 + 64, x0 <= col < x0 + 64;
        }
    }
}

/// A region's quant tables are all within the four-bit range of the stream format.
pub open spec fn region_quant_in_range(r: RegionView) -> bool {
    forall|i: int| 0 <= i < r.quant_vals.len() ==> quant_in_range(#[trigger] r.quant_vals[i])
}

/// Every region among the blocks has its quant tables in the four-bit range.
pub open spec fn blocks_quant_in_range(blocks: Seq<Option<RegionView>>) -> bool {
    forall|i: int| 0 <= i < blocks.len() ==> (#[trigger] blocks[i] matches Some(r) ==> region_quant_in_range(r))
}

/// A first-pass tile's component data each fit a 16-bit length field.
pub open spec fn tile_lengths_bounded(t: TileView) -> bool {
    t.y_data.len() <= 0xFFFF && t.cb_data.len() <= 0xFFFF && t.cr_data.len() <= 0xFFFF
}

/// Every first-pass tile among the blocks has component data that fits a
/// 16-bit length field.
pub open spec fn blocks_tile_lengths_bounded(blocks: Seq<Option<RegionView>>) -> bool {
    forall|i: int, j: int|
        0 <= i < blocks.len() && blocks[i] is Some && 0 <= j < blocks[i]->0.tiles.len()
            ==> (#[trigger] blocks[i]->0.tiles[j] matches Some(t) ==> tile_lengths_bounded(t))
}

pub open spec fn region_opt_view(b: Option<RegionData>) -> Option<RegionView> {
    match b {
        Some(r) => Some(r@),
        None => None,
    }
}

/// Drawing the regions among the blocks of a stream in order (blocks that are
/// not regions are skipped), stopping at the first error: a region with a
/// quant table outside the four-bit range, or a tile that fails to decode.
pub open spec fn draw_blocks(screen: Seq<i32>, w: i32, h: i32, blocks: Seq<Option<RegionView>>) -> (Seq<i32>, Option<Seq<char>>)
    decreases blocks.len(),
{
    if blocks.len() == 0 {
        (screen, None)
    } else {
        match blocks[0] {
            None => draw_blocks(screen, w, h, blocks.drop_first()),
            Some(r) => if !region_quant_in_range(r) {
                (screen, Some("Quant value out of range"@))
            } else {
                let (s1, e) = draw_tiles(screen, w, h, r.quant_vals, r.flags, r.tiles);
                if e is Some {
                    (s1, e)
                } else {
                    draw_blocks(s1, w, h, blocks.drop_first())
                }
            },
        }
    }
}

fn tile_origin_of(idx: u16) -> (r: i32)
    ensures
        r == tile_origin(idx),
{
    ((idx as u32 * 64) % 65536) as i32
}

fn draw_region_tiles(screen: &mut Vec<i32>, w: i32, h: i32, region: &RegionData) -> (r: Result<(), String>)
    requires
        screen_ok(old(screen)@.len() as int, w, h),
        forall|i: int| 0 <= i < region.quant_vals@.len() ==> quant_in_range(#[trigger] region.quant_vals@[i]),
    ensures
        final(screen)@.len() == old(screen)@.len(),
        ({
            let (s, e) = draw_tiles(old(screen)@, w, h, region@.quant_vals, region@.flags, region@.tiles);
            &&& final(screen)@ == s
            &&& match r {
                Ok(()) => e is None,
                Err(msg) => e == Some(msg@),
            }
        }),
{
    let ghost tiles = region@.tiles;
    let ghost target = draw_tiles(old(screen)@, w, h, region@.quant_vals, region@.flags, tiles);
    let mut k: usize = 0;
    assert(tiles.skip(0) =~= tiles);
    while k < region.tiles.len()
        invariant
            0 <= k <= region.tiles.len(),
            tiles == region@.tiles,
            tiles.len() == region.tiles@.len(),
            screen@.len() == old(screen)@.len(),
            screen_ok(old(screen)@.len() as int, w, h),
            forall|i: int| 0 <= i < region.quant_vals@.len() ==> quant_in_range(#[trigger] region.quant_vals@[i]),
            draw_tiles(screen@, w, h, region@.quant_vals, region@.flags, tiles.skip(k as int)) == target,
            target == draw_tiles(old(screen)@, w, h, region@.quant_vals, region@.flags, tiles),
        decreases region.tiles.len() - k,
    {
        let ghost rest = tiles.skip(k as int);
        assert(rest.drop_first() =~= tiles.skip(k + 1));
        assert(rest[0] == tile_opt_view(region.tiles@[k as int]));
        match &region.tiles[k] {
            None => {},
            Some(t) => {
                assert(rest[0] == Some(t@));
                match decode_tile(t, &region.quant_vals, region.flags) {
                    Err(e) => {
                        assert(draw_tiles(screen@, w, h, region@.quant_vals, region@.flags, rest) == (
                            screen@,
                            Some(e@),
                        ));
                        assert(target == (screen@, Some(e@)));
                        return Err(e);
                    },
                    Ok(rgba) => {
                        let x = tile_origin_of(t.x_idx);
                        let y = tile_origin_of(t.y_idx);
                        let ghost before = screen@;
                        copy_tile_to_screen(screen, w, h, x, y, rgba.as_slice());
                        assert(screen@ =~= blit_screen(before, tile_blit(w, h, x, y), PixelEncoding::Rgba32, rgba@));
                    },
                }
            },
        }
        k += 1;
    }
    assert(tiles.skip(k as int) =~= Seq::<Option<TileView>>::empty());
    Ok(())
}

/// Draws the first-pass tiles of the regions among the decoded blocks of a
/// progressive stream into the screen, in order, stopping at the first region
/// with an out-of-range quant table or tile that fails to decode (tiles drawn
/// before it stay drawn).
pub fn draw_progressive_blocks(screen: &mut Vec<i32>, w: i32, h: i32, blocks: &Vec<Option<RegionData>>) -> (r: Result<
    (),
    String,
>)
    requires
        screen_ok(old(screen)@.len() as int, w, h),
    ensures
        final(screen)@.len() == old(screen)@.len(),
        ({
            let (s, e) = draw_blocks(old(screen)@, w, h, blocks@.map_values(|b: Option<RegionData>| region_opt_view(b)));
            &&& final(screen)@ == s
            &&& match r {
                Ok(()) => e is None,
                Err(msg) => e == Some(msg@),
            }
        }),
{
    let ghost bs = blocks@.map_values(|b: Option<RegionData>| region_opt_view(b));
    let ghost target = draw_blocks(old(screen)@, w, h, bs);
    let mut k: usize = 0;
    assert(bs.skip(0) =~= bs);
    while k < blocks.len()
        invariant
            0 <= k <= blocks.len(),
            bs == blocks@.map_values(|b: Option<RegionData>| region_opt_view(b)),
            screen@.len() == old(screen)@.len(),
            screen_ok(old(screen)@.len() as int, w, h),
            draw_blocks(screen@, w, h, bs.skip(k as int)) == target,
            target == draw_blocks(old(screen)@, w, h, bs),
        decreases blocks.len() - k,
    {
        let ghost rest = bs.skip(k as int);
        assert(rest.drop_first() =~= bs.skip(k + 1));
        assert(rest[0] == region_opt_view(blocks@[k as int]));
        match &blocks[k] {
            None => {},
            Some(region) => {
                assert(rest[0] == Some(region@));
                if !quants_ok(&region.quant_vals) {
                    assert(!region_quant_in_range(region@));
                    return Err(String::from_str("Quant value out of range"));
                }
                assert(region_quant_in_range(region@));
                let ghost before = screen@;
                match draw_region_tiles(screen, w, h, region) {
                    Err(e) => {
                        assert(target == (screen@, Some(e@)));
                        return Err(e);
                    },
                    Ok(()) => {},
                }
            },
        }
        k += 1;
    }
    assert(bs.skip(k as int) =~= Seq::<Option<RegionView>>::empty());
    Ok(())
}

#[verifier::external_type_specification]
#[verifier::external_body]
pub struct ExProgressiveRegion<'a>(ProgressiveRegion<'a>);

#[verifier::external_type_specification]
#[verifier::external_body]
pub struct ExProgressiveTile<'a>(ProgressiveTile<'a>);

/// What `decode_progressive_stream` of `ironrdp_pdu` makes of a byte stream:
/// for each block in stream order, its region (quant tables, flags and
/// first-pass tiles) or `None` for the other block kinds; or the `Debug` text
/// of the decoding error.
pub uninterp spec fn progressive_blocks(data: Seq<u8>) -> Result<Seq<Option<RegionView>>, Seq<char>>;

/// Trusted wrapper of `decode_progressive_stream`: its blocks, each region
/// converted field by field, as `progressive_blocks` names them. The decoder
/// reads every quant value as a four-bit nibble, so each is at most 15, and
/// the length of each component's tile data from a 16-bit field.
#[verifier::external_body]
fn parse_progressive(data: &[u8]) -> (r: Result<Vec<Option<RegionData>>, String>)
    ensures
        match r {
            Ok(v) => progressive_blocks(data@) == Ok::<Seq<Option<RegionView>>, Seq<char>>(
                v@.map_values(|b: Option<RegionData>| region_opt_view(b)),
            ),
            Err(e) => progressive_blocks(data@) == Err::<Seq<Option<RegionView>>, Seq<char>>(e@),
        },
        r matches Ok(v) ==> blocks_quant_in_range(v@.map_values(|b: Option<RegionData>| region_opt_view(b))),
        r matches Ok(v) ==> blocks_tile_lengths_bounded(v@.map_values(|b: Option<RegionData>| region_opt_view(b))),
{
    match decode_progressive_stream(data) {
        Ok(blocks) => Ok(blocks.iter().map(|b| match b {
            ProgressiveBlock::Sync(_) => None,
            ProgressiveBlock::FrameBegin(_) => None,
            ProgressiveBlock::FrameEnd(_) => None,
            ProgressiveBlock::Context(_) => None,
            ProgressiveBlock::Region(r) => Some(region_data(r)),
        }).collect()),
        Err(e) => Err(format!("{:?}", e)),
    }
}

/// Converts an `ironrdp_pdu` progressive tile for `parse_progressive`: a
/// first-pass tile's fields copied one for one, or `None` for a refinement tile.
#[verifier::external_body]
fn tile_data(t: &ProgressiveTile<'_>) -> Option<TileData> {
    match t {
        ProgressiveTile::Simple(t) => Some(TileData { quant_idx_y: t.quant_idx_y, quant_idx_cb: t.quant_idx_cb, quant_idx_cr: t.quant_idx_cr, x_idx: t.x_idx, y_idx: t.y_idx, y_data: t.y_data.to_vec(), cb_data: t.cb_data.to_vec(), cr_data: t.cr_data.to_vec() }),
        ProgressiveTile::First(t) => Some(TileData { quant_idx_y: t.quant_idx_y, quant_idx_cb: t.quant_idx_cb, quant_idx_cr: t.quant_idx_cr, x_idx: t.x_idx, y_idx: t.y_idx, y_data: t.y_data.to_vec(), cb_data: t.cb_data.to_vec(), cr_data: t.cr_data.to_vec() }),
        ProgressiveTile::Upgrade(_) => None,
    }
}

/// Converts an `ironrdp_pdu` progressive region for `parse_progressive`: its
/// quant tables (classic order), flags and tiles copied one for one.
#[verifier::external_body]
fn region_data(r: &ProgressiveRegion<'_>) -> RegionData {
    RegionData {
        quant_vals: r.quant_vals.iter().map(|q| QuantValues { ll3: q.ll3, lh3: q.lh3, hl3: q.hl3, hh3: q.hh3, lh2: q.lh2, hl2: q.hl2, hh2: q.hh2, lh1: q.lh1, hl1: q.hl1, hh1: q.hh1 }).collect(),
        flags: r.flags,
        tiles: r.tiles.iter().map(tile_data).collect(),
    }
}

fn quants_ok(quants: &Vec<QuantValues>) -> (r: bool)
    ensures
        r == forall|i: int| 0 <= i < quants@.len() ==> quant_in_range(#[trigger] quants@[i]),
{
    let mut i: usize = 0;
    while i < quants.len()
        invariant
            0 <= i <= quants.len(),
            forall|j: int| 0 <= j < i ==> quant_in_range(#[trigger] quants@[j]),
        decreases quants.len() - i,
    {
        let q = quants[i];
        if !(q.ll3 <= 15 && q.lh3 <= 15 && q.hl3 <= 15 && q.hh3 <= 15 && q.lh2 <= 15 && q.hl2 <= 15 && q.hh2 <= 15
            && q.lh1 <= 15 && q.hl1 <= 15 && q.hh1 <= 15) {
            return false;
        }
        i += 1;
    }
    true
}

/// Decodes a RemoteFX progressive stream and draws its first-pass tiles into
/// the screen, region by region; refinement tiles are ignored. Errors name the
/// step that failed. Quant values are four-bit fields of the stream; a table
/// outside that range is reported as a decoding error.
pub fn decode_progressive_stream_to_screen(data: &[u8], screen: &mut Vec<i32>, w: i32, h: i32) -> (r: Result<
    (),
    String,
>)
    requires
        screen_ok(old(screen)@.len() as int, w, h),
    ensures
        final(screen)@.len() == old(screen)@.len(),
        progressive_blocks(data@) matches Ok(bs) ==> blocks_quant_in_range(bs) && blocks_tile_lengths_bounded(bs),
        match progressive_blocks(data@) {
            Err(e) => final(screen)@ == old(screen)@ && (r matches Err(m) && m@ == "decode_progressive_stream error: "@ + e),
            Ok(bs) => {
                let (s, e) = draw_blocks(old(screen)@, w, h, bs);
                &&& final(screen)@ == s
                &&& match r {
                    Ok(()) => e is None,
                    Err(m) => e == Some(m@),
                }
            },
        },
{
    let blocks = match parse_progressive(data) {
        Ok(b) => b,
        Err(e) => return Err(prefixed("decode_progressive_stream error: ", e)),
    };
    draw_progressive_blocks(screen, w, h, &blocks)
}

/// The framebuffer of the graphics pipeline.
pub struct GfxSurface {
    width: i32,
    height: i32,
    pixels: Vec<i32>,
}

impl GfxSurface {
    pub closed spec fn width(&self) -> i32 {
        self.width
    }

    pub closed spec fn height(&self) -> i32 {
        self.height
    }

    pub closed spec fn pixels(&self) -> Seq<i32> {
        self.pixels@
    }

    /// The surface holds exactly width × height pixels.
    pub open spec fn wf(&self) -> bool {
        &&& self.width() >= 0
        &&& self.height() >= 0
        &&& self.width() * self.height() <= i32::MAX
        &&& self.pixels().len() == self.width() * self.height()
    }

    /// A black surface of the session's requested size.
    pub fn new(width: i32, height: i32) -> (r: Self)
        requires
            width >= 0,
            height >= 0,
            width * height <= i32::MAX,
        ensures
            r.wf(),
            r.width() == width,
            r.height() == height,
            r.pixels() == Seq::new((width * height) as nat, |i: int| 0i32),
    {
        assert(0 <= width * height) by (nonlinear_arith)
            requires width >= 0, height >= 0;
        let mut pixels: Vec<i32> = Vec::new();
        pixels.resize((width * height) as usize, 0);
        assert(pixels@ =~= Seq::new((width * height) as nat, |i: int| 0i32));
        GfxSurface { width, height, pixels }
    }

    pub fn width_px(&self) -> (r: i32)
        ensures
            r == self.width(),
    {
        self.width
    }

    pub fn height_px(&self) -> (r: i32)
        ensures
            r == self.height(),
    {
        self.height
    }

    pub fn pixel_data(&self) -> (r: &[i32])
        ensures
            r@ == self.pixels(),
    {
        self.pixels.as_slice()
    }

    /// The server reset the graphics to a new size: the pixel buffer keeps its
    /// leading pixels and grows with black ones or shrinks to the new size.
    pub fn reset_graphics(&mut self, width: u32, height: u32) -> (r: (i32, i32))
        requires
            width <= i32::MAX,
            height <= i32::MAX,
            width * height <= i32::MAX,
        ensures
            final(self).wf(),
            r == (width as i32, height as i32),
            final(self).width() == width as i32,
            final(self).height() == height as i32,
            final(self).pixels().len() == width * height,
            forall|i: int| 0 <= i < final(self).pixels().len() ==> final(self).pixels()[i] == if i < old(self).pixels().len() {
                old(self).pixels()[i]
            } else {
                0i32
            },
    {
        let w = width as i32;
        let h = height as i32;
        assert(0 <= w * h) by (nonlinear_arith)
            requires w >= 0, h >= 0;
        self.width = w;
        self.height = h;
        let n = (w * h) as usize;
        self.pixels.resize(n, 0);
        assert forall|i: int| 0 <= i < self.pixels@.len() implies self.pixels@[i] == if i < old(self).pixels().len() {
            old(self).pixels()[i]
        } else {
            0i32
        } by {
            if i < old(self).pixels().len() && n > old(self).pixels().len() {
                assert(self.pixels@.subrange(0, old(self).pixels().len() as int)[i] == old(self).pixels()[i]);
            }
        }
        (w, h)
    }

    /// An uncompressed bitmap update (top-down RGBA rows) for a rectangle.
    pub fn bitmap_updated(&mut self, rect: &InclusiveRect, data: &[u8])
        requires
            old(self).wf(),
            rect.valid(),
            rect_size_ok(rect.spec_width(), rect.spec_height()),
        ensures
            final(self).wf(),
            final(self).width() == old(self).width(),
            final(self).height() == old(self).height(),
            final(self).pixels() == blit_screen(
                old(self).pixels(),
                gfx_rect_blit(old(self).width(), old(self).height(), *rect),
                PixelEncoding::Rgba32,
                data@,
            ),
    {
        copy_gfx_bitmap_to_screen(&mut self.pixels, self.width, self.height, rect, data);
        assert(self.pixels@ =~= blit_screen(
            old(self).pixels(),
            gfx_rect_blit(old(self).width(), old(self).height(), *rect),
            PixelEncoding::Rgba32,
            data@,
        ));
    }

    /// A RemoteFX progressive update: its first-pass tiles are drawn.
    pub fn progressive_update(&mut self, data: &[u8]) -> (r: Result<(), String>)
        requires
            old(self).wf(),
        ensures
            final(self).wf(),
            final(self).width() == old(self).width(),
            final(self).height() == old(self).height(),
            progressive_blocks(data@) matches Ok(bs) ==> blocks_quant_in_range(bs) && blocks_tile_lengths_bounded(bs),
            match progressive_blocks(data@) {
                Err(e) => final(self).pixels() == old(self).pixels() && (r matches Err(m)
                    && m@ == "decode_progressive_stream error: "@ + e),
                Ok(bs) => {
                    let (s, e) = draw_blocks(old(self).pixels(), old(self).width(), old(self).height(), bs);
                    &&& final(self).pixels() == s
                    &&& match r {
                        Ok(()) => e is None,
                        Err(m) => e == Some(m@),
                    }
                },
            },
    {
        decode_progressive_stream_to_screen(data, &mut self.pixels, self.width, self.height)
    }
}

} // verus!
