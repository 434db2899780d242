//! A decoded raster image held as plain RGBA bytes, and its conversion to the
//! packed `0RGB` pixel buffer that a window surface takes.
use vstd::prelude::*;

verus! {

/// Packs one pixel's red, green and blue channels as `0x00RRGGBB`.
pub open spec fn packed_pixel(r: u8, g: u8, b: u8) -> int {
    r as int * 65536 + g as int * 256 + b as int
}

/// Why a byte buffer could not be taken as an image.
#[derive(Debug, Clone, Copy, PartialEq, Eq, Structural)]
pub enum FrameError {
    /// The buffer does not hold exactly four bytes per pixel.
    BufferSizeMismatch,
}

/// An image of `width` by `height` pixels, four bytes (R, G, B, A) per pixel,
/// row by row.
pub struct Frame {
    width: u32,
    height: u32,
    rgba: Vec<u8>,
}

impl Frame {
    pub closed spec fn spec_width(&self) -> u32 {
        self.width
    }

    pub closed spec fn spec_height(&self) -> u32 {
        self.height
    }

    pub open spec fn pixel_count(&self) -> int {
        self.spec_width() as int * self.spec_height() as int
    }

    /// The image's bytes.
    pub closed spec fn view(&self) -> Seq<u8> {
        self.rgba@
    }

    /// Four bytes for each pixel.
    pub open spec fn wf(&self) -> bool {
        self@.len() == 4 * self.pixel_count()
    }

    /// Takes `rgba` as an image of the given size; refused unless it holds
    /// exactly `4 * width * height` bytes.
    pub fn from_rgba(width: u32, height: u32, rgba: Vec<u8>) -> (r: Result<Frame, FrameError>)
        ensures
            rgba@.len() == 4 * ((width as int) * (height as int)) <==> r is Ok,
            r is Err ==> r == Err::<Frame, FrameError>(FrameError::BufferSizeMismatch),
            r matches Ok(f) ==> f.wf() && f.spec_width() == width && f.spec_height() == height
                && f@ == rgba@,
    {
        assert((width as int) * (height as int) <= 0xffff_ffff * 0xffff_ffff) by (nonlinear_arith)
            requires
                width <= 0xffff_ffff,
                height <= 0xffff_ffff,
        ;
        let expected: u128 = 4u128 * ((width as u128) * (height as u128));
        if rgba.len() as u128 == expected {
            Ok(Frame { width, height, rgba })
        } else {
            Err(FrameError::BufferSizeMismatch)
        }
    }

    pub fn width(&self) -> (r: u32)
        ensures
            r == self.spec_width(),
    {
        self.width
    }

    pub fn height(&self) -> (r: u32)
        ensures
            r == self.spec_height(),
    {
        self.height
    }

    /// The pixels as `0x00RRGGBB` words, in the image's order; alpha is
    /// dropped.
    pub fn packed_pixels(&self) -> (r: Vec<u32>)
        requires
            self.wf(),
        ensures
            r@.len() == self.pixel_count(),
            forall|i: int|
                0 <= i < r@.len() ==> #[trigger] r@[i] as int == packed_pixel(
                    self@[4 * i],
                    self@[4 * i + 1],
                    self@[4 * i + 2],
                ),
    {
        let len: usize = self.rgba.len();
        let n: usize = len / 4;
        let mut out: Vec<u32> = Vec::with_capacity(n);
        let mut i: usize = 0;
        while i < n
            invariant
                self.wf(),
                len == self.rgba@.len(),
                len == 4 * n,
                n == self.pixel_count(),
                i <= n,
                out@.len() == i,
                forall|k: int|
                    0 <= k < i ==> #[trigger] out@[k] as int == packed_pixel(
                        self@[4 * k],
                        self@[4 * k + 1],
                        self@[4 * k + 2],
                    ),
            decreases n - i,
        {
            assert(4 * i + 3 < len);
            let base: usize = 4 * i;
            let r: u8 = self.rgba[base];
            let g: u8 = self.rgba[base + 1];
            let b: u8 = self.rgba[base + 2];
            let word: u32 = ((r as u32) << 16u32) | ((g as u32) << 8u32) | (b as u32);
            assert(word == (r as u32) * 65536u32 + (g as u32) * 256u32 + (b as u32)) by (bit_vector)
                requires
                    word == ((r as u32) << 16u32) | ((g as u32) << 8u32) | (b as u32),
            ;
            out.push(word);
            i = i + 1;
        }
        out
    }
}

} // verus!
