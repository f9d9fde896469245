//! The frame buffer that a desktop tab keeps of its remote screen.

use vstd::prelude::*;

verus! {

/// The dark canvas colour that fills a fresh frame (0xFF121212).
pub open spec fn canvas_pixel() -> i32 {
    0xFF121212u32 as i32
}

/// A vector of `n` copies of `v`.
pub fn filled(n: usize, v: i32) -> (r: Vec<i32>)
    ensures
        r@ == Seq::new(n as nat, |i: int| v),
{
    let mut r: Vec<i32> = Vec::new();
    let mut i: usize = 0;
    while i < n
        invariant
            i <= n,
            r@ == Seq::new(i as nat, |k: int| v),
        decreases n - i,
    {
        r.push(v);
        i = i + 1;
        assert(r@ =~= Seq::new(i as nat, |k: int| v));
    }
    r
}

pub open spec fn max1(v: i32) -> int {
    if v < 1 {
        1
    } else {
        v as int
    }
}

/// The latest remote frame of a tab, with a generation counter that changes on every update.
pub struct FrameBuffer {
    pub width: i32,
    pub height: i32,
    pub pixels: Vec<i32>,
    pub generation: u64,
}

/// How many pixels `set_frame` copies: all that fit the (possibly resized) frame;
/// a negative pixel count means the whole input.
pub open spec fn frame_copy_len(width: i32, height: i32, input_len: int) -> int {
    let n = width * height;
    if n < 0 {
        input_len
    } else if input_len < n {
        input_len
    } else {
        n
    }
}

impl FrameBuffer {
    /// A frame of the given size filled with the canvas colour; a non-positive
    /// dimension still gets one row or column of pixels.
    pub fn new(width: i32, height: i32) -> (r: Self)
        requires
            max1(width) * max1(height) <= i32::MAX,
        ensures
            r.width == width,
            r.height == height,
            r.generation == 0,
            r.pixels@ == Seq::new((max1(width) * max1(height)) as nat, |i: int| canvas_pixel()),
    {
        let w: i32 = if width < 1 { 1 } else { width };
        let h: i32 = if height < 1 { 1 } else { height };
        let size = (w * h) as usize;
        FrameBuffer { width, height, pixels: filled(size, 0xFF121212u32 as i32), generation: 0 }
    }

    /// Resizes to at least 1 x 1, refills with the canvas colour and bumps the generation.
    pub fn resize(&mut self, width: i32, height: i32)
        requires
            max1(width) * max1(height) <= i32::MAX,
        ensures
            final(self).width == max1(width),
            final(self).height == max1(height),
            final(self).pixels@ == Seq::new((max1(width) * max1(height)) as nat, |i: int| canvas_pixel()),
            final(self).generation == old(self).generation.wrapping_add(1),
    {
        self.width = if width < 1 { 1 } else { width };
        self.height = if height < 1 { 1 } else { height };
        self.pixels = filled((self.width * self.height) as usize, 0xFF121212u32 as i32);
        self.generation = self.generation.wrapping_add(1);
    }

    /// Stores a decoded frame: resizes first when its size differs, then copies
    /// as many pixels as both sides hold and bumps the generation.
    pub fn set_frame(&mut self, pixels: &[i32], width: i32, height: i32)
        requires
            max1(width) * max1(height) <= i32::MAX,
            width == old(self).width && height == old(self).height ==> {
                &&& i32::MIN <= width * height <= i32::MAX
                &&& frame_copy_len(width, height, pixels@.len() as int) <= old(self).pixels@.len()
            },
        ensures
            ({
                let resized = width != old(self).width || height != old(self).height;
                let base = if resized {
                    Seq::new((max1(width) * max1(height)) as nat, |i: int| canvas_pixel())
                } else {
                    old(self).pixels@
                };
                let (w, h) = if resized { (max1(width) as i32, max1(height) as i32) } else { (width, height) };
                let n = frame_copy_len(w, h, pixels@.len() as int);
                &&& final(self).width == w
                &&& final(self).height == h
                &&& final(self).pixels@ == pixels@.take(n) + base.skip(n)
                &&& final(self).generation == if resized {
                    old(self).generation.wrapping_add(1).wrapping_add(1)
                } else {
                    old(self).generation.wrapping_add(1)
                }
            }),
    {
        let resized = width != self.width || height != self.height;
        if resized {
            self.resize(width, height);
        }
        assert(self.width == (if resized { max1(width) as i32 } else { width }));
        assert(self.height == (if resized { max1(height) as i32 } else { height }));
        assert(self.width * self.height <= i32::MAX && self.width * self.height >= i32::MIN) by {
            if resized {
                let w = self.width;
                let h = self.height;
                assert(w * h >= 1) by (nonlinear_arith)
                    requires w >= 1, h >= 1;
            }
        }
        let n: i32 = self.width * self.height;
        let copy_len: usize = if n < 0 {
            pixels.len()
        } else if pixels.len() < n as usize {
            pixels.len()
        } else {
            n as usize
        };
        let ghost base = self.pixels@;
        let ghost w0 = self.width;
        let ghost h0 = self.height;
        let ghost g0 = self.generation;
        assert(copy_len == frame_copy_len(self.width, self.height, pixels@.len() as int));
        assert(copy_len <= base.len()) by {
            if resized {
                assert(base.len() == max1(width) * max1(height));
            }
        }
        let mut i: usize = 0;
        while i < copy_len
            invariant
                i <= copy_len,
                copy_len <= base.len(),
                copy_len <= pixels@.len(),
                self.pixels@.len() == base.len(),
                self.width == w0,
                self.height == h0,
                self.generation == g0,
                forall|k: int| 0 <= k < i ==> self.pixels@[k] == pixels@[k],
                forall|k: int| i <= k < base.len() ==> self.pixels@[k] == base[k],
            decreases copy_len - i,
        {
            self.pixels.set(i, pixels[i]);
            i = i + 1;
        }
        assert(self.pixels@ =~= pixels@.take(copy_len as int) + base.skip(copy_len as int));
        self.generation = self.generation.wrapping_add(1);
    }

    /// The frame as RGBA bytes for the UI toolkit: each 0xAARRGGBB pixel becomes
    /// R, G, B, A, with a zero alpha shown opaque; missing pixels stay zero.
    pub fn to_rgba(&self) -> (r: Vec<u8>)
        requires
            self.width >= 0,
            self.height >= 0,
            self.width * self.height * 4 <= usize::MAX,
        ensures
            r@.len() == self.width * self.height * 4,
            forall|i: int| 0 <= i < self.width * self.height ==> #[trigger] rgba_of(self.pixels@, i) == (r@[4 * i], r@[4 * i + 1], r@[4 * i + 2], r@[4 * i + 3]),
    {
        let w = self.width as usize;
        let h = self.height as usize;
        assert(w * h * 4 <= usize::MAX) by (nonlinear_arith)
            requires w == self.width, h == self.height, self.width * self.height * 4 <= usize::MAX, w >= 0, h >= 0;
        let total = w * h;
        let mut rgba: Vec<u8> = Vec::new();
        let mut i: usize = 0;
        while i < total
            invariant
                i <= total,
                total * 4 <= usize::MAX,
                total == self.width * self.height,
                rgba@.len() == 4 * i,
                forall|k: int| 0 <= k < i ==> #[trigger] rgba_of(self.pixels@, k) == (rgba@[4 * k], rgba@[4 * k + 1], rgba@[4 * k + 2], rgba@[4 * k + 3]),
            decreases total - i,
        {
            let ghost prev = rgba@;
            if i < self.pixels.len() {
                let v = self.pixels[i] as u32;
                let a = ((v >> 24) & 0xFF) as u8;
                let r = ((v >> 16) & 0xFF) as u8;
                let g = ((v >> 8) & 0xFF) as u8;
                let b = (v & 0xFF) as u8;
                rgba.push(r);
                rgba.push(g);
                rgba.push(b);
                rgba.push(if a == 0 { 255 } else { a });
            } else {
                rgba.push(0);
                rgba.push(0);
                rgba.push(0);
                rgba.push(0);
            }
            assert forall|k: int| 0 <= k < i + 1 implies #[trigger] rgba_of(self.pixels@, k) == (rgba@[4 * k], rgba@[4 * k + 1], rgba@[4 * k + 2], rgba@[4 * k + 3]) by {
                if k < i {
                    assert(rgba@[4 * k] == prev[4 * k]);
                    assert(rgba@[4 * k + 1] == prev[4 * k + 1]);
                    assert(rgba@[4 * k + 2] == prev[4 * k + 2]);
                    assert(rgba@[4 * k + 3] == prev[4 * k + 3]);
                }
            }
            i = i + 1;
        }
        rgba
    }
}

/// The RGBA bytes of pixel `i`: zero for a missing pixel, and an opaque alpha for alpha 0.
pub open spec fn rgba_of(pixels: Seq<i32>, i: int) -> (u8, u8, u8, u8) {
    if i < pixels.len() {
        let v = pixels[i] as u32;
        let a = ((v >> 24) & 0xFF) as u8;
        (((v >> 16) & 0xFF) as u8, ((v >> 8) & 0xFF) as u8, (v & 0xFF) as u8, if a == 0 { 255u8 } else { a })
    } else {
        (0u8, 0u8, 0u8, 0u8)
    }
}

} // verus!
