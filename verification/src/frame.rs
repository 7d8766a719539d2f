//! A single rendered NES frame, stored as packed RGB.

use vstd::prelude::*;

verus! {

broadcast use vstd::array::group_array_axioms;

/// NES native horizontal resolution.
pub const WIDTH: usize = 256;
/// NES native vertical resolution.
pub const HEIGHT: usize = 240;
/// Bytes per pixel (R, G, B — no alpha).
pub const BPP: usize = 3;
/// Total bytes in a frame's pixel buffer.
pub const FRAME_BYTES: usize = WIDTH * HEIGHT * BPP;

/// Byte offset of the red component of pixel `(x, y)`.
pub open spec fn pixel_offset(x: int, y: int) -> int {
    (y * WIDTH + x) * BPP
}

/// The RGB triple of pixel `(x, y)` in a packed pixel buffer.
pub open spec fn pixel_at(pixels: Seq<u8>, x: int, y: int) -> Seq<u8> {
    let off = pixel_offset(x, y);
    seq![pixels[off], pixels[off + 1], pixels[off + 2]]
}

/// The buffer after writing `rgb` to pixel `(x, y)`.
pub open spec fn with_pixel(pixels: Seq<u8>, x: int, y: int, rgb: Seq<u8>) -> Seq<u8> {
    let off = pixel_offset(x, y);
    pixels.update(off, rgb[0]).update(off + 1, rgb[1]).update(off + 2, rgb[2])
}

/// A buffer of `FRAME_BYTES` zero bytes.
pub open spec fn blank_pixels() -> Seq<u8> {
    Seq::new(FRAME_BYTES as nat, |i: int| 0u8)
}

/// One rendered frame as packed RGB pixels in row-major order.
///
/// Pixel `(x, y)` lives at byte offset `(y * WIDTH + x) * BPP`.
#[derive(Clone)]
pub struct Frame {
    pub pixels: Box<[u8; FRAME_BYTES]>,
}

impl Frame {
    /// An all-black frame.
    pub fn new() -> (f: Self)
        ensures
            f.pixels@ == blank_pixels(),
    {
        let f = Frame { pixels: Box::new([0u8; 184320]) };
        assert(f.pixels@ =~= blank_pixels());
        f
    }

    /// Sets the pixel at `(x, y)` to `rgb`.
    pub fn set_pixel(&mut self, x: usize, y: usize, rgb: [u8; 3])
        requires
            x < WIDTH,
            y < HEIGHT,
        ensures
            final(self).pixels@ == with_pixel(old(self).pixels@, x as int, y as int, rgb@),
    {
        let off = (y * WIDTH + x) * BPP;
        self.pixels[off] = rgb[0];
        self.pixels[off + 1] = rgb[1];
        self.pixels[off + 2] = rgb[2];
    }

    /// Returns the RGB triple at `(x, y)`.
    pub fn get_pixel(&self, x: usize, y: usize) -> (rgb: [u8; 3])
        requires
            x < WIDTH,
            y < HEIGHT,
        ensures
            rgb@ == pixel_at(self.pixels@, x as int, y as int),
    {
        let off = (y * WIDTH + x) * BPP;
        let rgb = [self.pixels[off], self.pixels[off + 1], self.pixels[off + 2]];
        assert(rgb@ =~= pixel_at(self.pixels@, x as int, y as int));
        rgb
    }
}

impl Default for Frame {
    fn default() -> (f: Self)
        ensures
            f.pixels@ == blank_pixels(),
    {
        Frame::new()
    }
}

/// Reading a pixel gives back what was last written to it, and writing a
/// pixel leaves every other pixel as it was.
pub proof fn lemma_set_then_get(pixels: Seq<u8>, x: int, y: int, rgb: Seq<u8>, x2: int, y2: int)
    requires
        pixels.len() == FRAME_BYTES,
        rgb.len() == 3,
        0 <= x < WIDTH,
        0 <= y < HEIGHT,
        0 <= x2 < WIDTH,
        0 <= y2 < HEIGHT,
    ensures
        pixel_at(with_pixel(pixels, x, y, rgb), x, y) == rgb,
        (x2 != x || y2 != y) ==> pixel_at(with_pixel(pixels, x, y, rgb), x2, y2) == pixel_at(
            pixels,
            x2,
            y2,
        ),
        with_pixel(pixels, x, y, rgb).len() == FRAME_BYTES,
{
    assert(pixel_at(with_pixel(pixels, x, y, rgb), x, y) =~= rgb);
    if x2 != x || y2 != y {
        assert(pixel_at(with_pixel(pixels, x, y, rgb), x2, y2) =~= pixel_at(pixels, x2, y2));
    }
}

/// Every pixel of a new frame is black.
pub proof fn lemma_new_frame_is_black(x: int, y: int)
    requires
        0 <= x < WIDTH,
        0 <= y < HEIGHT,
    ensures
        pixel_at(blank_pixels(), x, y) == seq![0u8, 0u8, 0u8],
{
    assert(pixel_at(blank_pixels(), x, y) =~= seq![0u8, 0u8, 0u8]);
}


/// The layout, byte by byte: rows of 256 pixels of 3 bytes each (768 bytes
/// per row), red, green, blue. Writing pixel `(x, y)` sets exactly the bytes
/// `768 * y + 3 * x` .. `+ 2` to its red, green and blue and leaves every
/// other byte alone; reading gives back those three bytes; a new frame is
/// 184320 zero bytes.
pub proof fn lemma_pixel_layout(pixels: Seq<u8>, x: int, y: int, rgb: Seq<u8>, i: int)
    requires
        pixels.len() == 184320,
        rgb.len() == 3,
        0 <= x < 256,
        0 <= y < 240,
        0 <= i < 184320,
    ensures
        pixel_at(pixels, x, y) == seq![
            pixels[768 * y + 3 * x],
            pixels[768 * y + 3 * x + 1],
            pixels[768 * y + 3 * x + 2],
        ],
        with_pixel(pixels, x, y, rgb).len() == 184320,
        with_pixel(pixels, x, y, rgb)[i] == if i == 768 * y + 3 * x {
            rgb[0]
        } else if i == 768 * y + 3 * x + 1 {
            rgb[1]
        } else if i == 768 * y + 3 * x + 2 {
            rgb[2]
        } else {
            pixels[i]
        },
        blank_pixels().len() == 184320,
        blank_pixels()[i] == 0,
{
}

} // verus!
